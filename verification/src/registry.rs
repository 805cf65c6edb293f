use vstd::prelude::*;
use crate::json::JsonValue;
use crate::text::{bytes_lt, str_eq, str_lt, strs_view, dup_strings};
use vstd::utf8::encode_utf8;

verus! {

/// Why a tool body itself failed.
#[derive(Debug)]
pub enum ToolError {
    InvalidArgs(String),
    Execution(String),
}

/// Why a policy-checked invocation was refused, or the tool's own error
/// passed through as the terminal kind.
#[derive(Debug)]
pub enum ToolInvocationError {
    NotFound(String),
    AccessDenied { tool: String, reason: String },
    CoolingDown { tool: String, remaining_ms: u64 },
    RateLimited { tool: String, retry_after_ms: u64 },
    Tool(ToolError),
}

/// The tool capability: a named operation over structured values.
/// Implementations come from the embedding program; the registry gates
/// every policy-checked call before a tool body runs.
pub trait Tool {
    fn name(&self) -> String;

    fn input_schema(&self) -> JsonValue;

    fn output_schema(&self) -> JsonValue;

    fn execute(&self, args: JsonValue) -> Result<JsonValue, ToolError>;
}

/// An extra gate a tool may carry: its own required roles and the name
/// of the policy to report on refusal.
#[derive(Debug, Clone, PartialEq, Eq)]
pub struct AccessController {
    pub required_roles: Vec<String>,
    pub policy_name: Option<String>,
}

#[verifier::ext_equal]
pub struct AccessControllerV {
    pub required_roles: Seq<Seq<char>>,
    pub policy_name: Option<Seq<char>>,
}

impl View for AccessController {
    type V = AccessControllerV;

    open spec fn view(&self) -> AccessControllerV {
        AccessControllerV {
            required_roles: strs_view(self.required_roles@),
            policy_name: crate::data::opt_str_view(self.policy_name),
        }
    }
}

impl Default for AccessController {
    fn default() -> (r: Self)
        ensures
            r@.required_roles.len() == 0,
            r@.policy_name is None,
    {
        AccessController { required_roles: Vec::new(), policy_name: None }
    }
}

impl AccessController {
    pub fn duplicate(&self) -> (r: Self)
        ensures
            r@ == self@,
    {
        let r = AccessController {
            required_roles: dup_strings(&self.required_roles),
            policy_name: match &self.policy_name {
                Some(p) => Some(p.clone()),
                None => None,
            },
        };
        proof {
            assert(r@ =~= self@);
        }
        r
    }
}

/// A fixed-window rate limit: at most `max_calls` within each window of
/// `per_ms` milliseconds.
#[derive(Debug, Clone, Copy, PartialEq, Eq, Structural)]
pub struct RateLimitPolicy {
    pub max_calls: u64,
    pub per_ms: u64,
}

/// Everything the registry knows about one tool besides its body.
#[derive(Debug, Clone, PartialEq, Eq)]
pub struct ToolMetadata {
    pub description: Option<String>,
    pub tags: Vec<String>,
    pub allowed_roles: Vec<String>,
    pub cooldown_ms: Option<u64>,
    pub access_controller: Option<AccessController>,
    pub rate_limit: Option<RateLimitPolicy>,
}

#[verifier::ext_equal]
pub struct ToolMetadataV {
    pub description: Option<Seq<char>>,
    pub tags: Seq<Seq<char>>,
    pub allowed_roles: Seq<Seq<char>>,
    pub cooldown_ms: Option<u64>,
    pub access_controller: Option<AccessControllerV>,
    pub rate_limit: Option<RateLimitPolicy>,
}

impl View for ToolMetadata {
    type V = ToolMetadataV;

    open spec fn view(&self) -> ToolMetadataV {
        ToolMetadataV {
            description: crate::data::opt_str_view(self.description),
            tags: strs_view(self.tags@),
            allowed_roles: strs_view(self.allowed_roles@),
            cooldown_ms: self.cooldown_ms,
            access_controller: match self.access_controller {
                Some(c) => Some(c@),
                None => None,
            },
            rate_limit: self.rate_limit,
        }
    }
}

impl Default for ToolMetadata {
    fn default() -> (r: Self)
        ensures
            r@.description is None,
            r@.tags.len() == 0,
            r@.allowed_roles.len() == 0,
            r@.cooldown_ms is None,
            r@.access_controller is None,
            r@.rate_limit is None,
    {
        ToolMetadata {
            description: None,
            tags: Vec::new(),
            allowed_roles: Vec::new(),
            cooldown_ms: None,
            access_controller: None,
            rate_limit: None,
        }
    }
}

impl ToolMetadata {
    pub fn duplicate(&self) -> (r: Self)
        ensures
            r@ == self@,
    {
        let r = ToolMetadata {
            description: match &self.description {
                Some(d) => Some(d.clone()),
                None => None,
            },
            tags: dup_strings(&self.tags),
            allowed_roles: dup_strings(&self.allowed_roles),
            cooldown_ms: self.cooldown_ms,
            access_controller: match &self.access_controller {
                Some(c) => Some(c.duplicate()),
                None => None,
            },
            rate_limit: self.rate_limit,
        };
        proof {
            assert(r@ =~= self@);
        }
        r
    }
}

/// One tool body, held behind an opaque cell so entries can live in
/// ordinary collections; the body itself is outside the verifier's
/// reach, as tool implementations come from the embedding program.
#[verifier::external_body]
pub struct ToolBox {
    inner: Box<dyn Tool>,
}

impl ToolBox {
    /// Wraps a tool body.
    #[verifier::external_body]
    pub fn new(tool: Box<dyn Tool>) -> ToolBox {
        ToolBox { inner: tool }
    }

    /// Calls the wrapped body's `name`.
    #[verifier::external_body]
    pub fn tool_name(&self) -> String {
        self.inner.name()
    }

    /// Calls the wrapped body's `input_schema`.
    #[verifier::external_body]
    pub fn input_schema(&self) -> JsonValue {
        self.inner.input_schema()
    }

    /// Calls the wrapped body's `output_schema`.
    #[verifier::external_body]
    pub fn output_schema(&self) -> JsonValue {
        self.inner.output_schema()
    }

    /// Calls the wrapped body's `execute`.
    #[verifier::external_body]
    pub fn execute(&self, args: JsonValue) -> Result<JsonValue, ToolError> {
        self.inner.execute(args)
    }
}

/// One tool's live fixed-window counter.
#[derive(Debug, Clone, Copy, PartialEq, Eq, Structural)]
pub struct RateWindow {
    pub started_at_ms: u64,
    pub calls: u64,
}

struct ToolEntry {
    name: String,
    tool: ToolBox,
    metadata: ToolMetadata,
    last_invoked_ms: Option<u64>,
    window: Option<RateWindow>,
}

/// What the registry knows of one tool, as contracts see it: the tool
/// body itself stays opaque.
#[verifier::ext_equal]
pub struct ToolEntryV {
    pub name: Seq<char>,
    pub metadata: ToolMetadataV,
    pub last_invoked_ms: Option<u64>,
    pub window: Option<RateWindow>,
}

impl View for ToolEntry {
    type V = ToolEntryV;

    closed spec fn view(&self) -> ToolEntryV {
        ToolEntryV {
            name: self.name@,
            metadata: self.metadata@,
            last_invoked_ms: self.last_invoked_ms,
            window: self.window,
        }
    }
}

/// Tool names are ordered by the bytes of their UTF-8 form: the order
/// in which the registry keeps and lists them.
pub open spec fn name_lt(a: Seq<char>, b: Seq<char>) -> bool {
    bytes_lt(encode_utf8(a), encode_utf8(b))
}

/// Whether two role lists share at least one role.
pub open spec fn has_common_role(a: Seq<Seq<char>>, b: Seq<Seq<char>>) -> bool {
    exists|i: int, j: int| 0 <= i < a.len() && 0 <= j < b.len() && #[trigger] a[i] == #[trigger] b[j]
}

/// The access gate: the caller passes when the tool's allowed roles are
/// empty or shared, and, if an access controller is attached, when its
/// required roles are empty or shared as well.
pub open spec fn access_ok(md: ToolMetadataV, roles: Seq<Seq<char>>) -> bool {
    let role_permitted = md.allowed_roles.len() == 0 || has_common_role(roles, md.allowed_roles);
    let controller_permitted = match md.access_controller {
        None => true,
        Some(c) => c.required_roles.len() == 0 || has_common_role(c.required_roles, roles),
    };
    role_permitted && controller_permitted
}

/// The reason reported on an access refusal: the controller's policy
/// name when one is set, else a generic phrase.
pub open spec fn denial_reason(md: ToolMetadataV) -> Seq<char> {
    match md.access_controller {
        Some(c) => match c.policy_name {
            Some(n) => n,
            None => "caller lacks required role"@,
        },
        None => "caller lacks required role"@,
    }
}

/// Milliseconds since `then`, zero when the clock reads earlier.
pub open spec fn elapsed_ms(now: u64, then: u64) -> u64 {
    if now >= then {
        (now - then) as u64
    } else {
        0
    }
}

/// The cooldown gate: how long is left, if the tool is still cooling.
pub open spec fn cooling_remaining(cd: Option<u64>, last: Option<u64>, now: u64) -> Option<u64> {
    match (cd, last) {
        (Some(c), Some(l)) => {
            if elapsed_ms(now, l) < c {
                Some((c - elapsed_ms(now, l)) as u64)
            } else {
                None
            }
        },
        _ => None,
    }
}

/// The window the rate gate works against at `now`: a fresh window when
/// none exists or the old one has lapsed, else the old one.
pub open spec fn live_window(w: Option<RateWindow>, rl: RateLimitPolicy, now: u64) -> RateWindow {
    match w {
        None => RateWindow { started_at_ms: now, calls: 0 },
        Some(w0) => {
            if elapsed_ms(now, w0.started_at_ms) > rl.per_ms {
                RateWindow { started_at_ms: now, calls: 0 }
            } else {
                w0
            }
        },
    }
}

/// The rate gate's refusal: the window's remainder, once the window's
/// call budget is spent.
pub open spec fn rate_retry_after(w: RateWindow, rl: RateLimitPolicy, now: u64) -> Option<u64> {
    if w.calls >= rl.max_calls {
        if rl.per_ms >= elapsed_ms(now, w.started_at_ms) {
            Some((rl.per_ms - elapsed_ms(now, w.started_at_ms)) as u64)
        } else {
            Some(0)
        }
    } else {
        None
    }
}

/// The first entry with the given name, if any.
pub open spec fn find_entry(s: Seq<ToolEntryV>, name: Seq<char>) -> Option<int>
    decreases s.len(),
{
    if s.len() == 0 {
        None
    } else if s[0].name == name {
        Some(0)
    } else {
        match find_entry(s.drop_first(), name) {
            Some(i) => Some(i + 1),
            None => None,
        }
    }
}

/// Where a new entry lands: in name order, replacing an entry that
/// carries the same name, so the last registration wins.
pub open spec fn spec_insert(s: Seq<ToolEntryV>, e: ToolEntryV) -> Seq<ToolEntryV>
    decreases s.len(),
{
    if s.len() == 0 {
        seq![e]
    } else if name_lt(e.name, s[0].name) {
        seq![e] + s
    } else if e.name == s[0].name {
        seq![e] + s.drop_first()
    } else {
        seq![s[0]] + spec_insert(s.drop_first(), e)
    }
}

/// Entries stand in strictly increasing name order, so names are unique.
pub open spec fn entries_sorted(s: Seq<ToolEntryV>) -> bool {
    forall|i: int, j: int| 0 <= i < j < s.len() ==> name_lt(#[trigger] s[i].name, #[trigger] s[j].name)
}

/// Holds tools keyed by name in a deterministically ordered mapping and
/// gates every policy-checked invocation through three checks — access,
/// cooldown, rate limit, in that fixed order — before a tool body runs.
pub struct ToolRegistry {
    entries: Vec<ToolEntry>,
}

spec fn entry_views(s: Seq<ToolEntry>) -> Seq<ToolEntryV> {
    Seq::new(s.len(), |i: int| s[i]@)
}

impl View for ToolRegistry {
    type V = Seq<ToolEntryV>;

    closed spec fn view(&self) -> Seq<ToolEntryV> {
        entry_views(self.entries@)
    }
}

impl ToolRegistry {
    pub open spec fn wf(&self) -> bool {
        entries_sorted(self@)
    }

    pub fn new() -> (r: Self)
        ensures
            r@.len() == 0,
            r.wf(),
    {
        let r = ToolRegistry { entries: Vec::new() };
        proof {
            assert(r@ =~= Seq::<ToolEntryV>::empty());
        }
        r
    }

    /// Registers a tool body under an explicit name with its metadata;
    /// an entry already under that name is replaced.
    pub fn register_named(&mut self, name: String, tool: ToolBox, metadata: ToolMetadata)
        requires
            old(self).wf(),
        ensures
            final(self).wf(),
            final(self)@ == spec_insert(
                old(self)@,
                ToolEntryV {
                    name: name@,
                    metadata: metadata@,
                    last_invoked_ms: None,
                    window: None,
                },
            ),
    {
        let ghost target = ToolEntryV {
            name: name@,
            metadata: metadata@,
            last_invoked_ms: None,
            window: None,
        };
        let mut i: usize = 0;
        proof {
            assert(self@.skip(0) == self@);
            assert(self@.subrange(0, 0) + spec_insert(self@, target) =~= spec_insert(
                self@,
                target,
            ));
        }
        loop
            invariant
                *self == *old(self),
                self.wf(),
                i <= self@.len(),
                target == (ToolEntryV {
                    name: name@,
                    metadata: metadata@,
                    last_invoked_ms: None,
                    window: None,
                }),
                forall|j: int| 0 <= j < i as int ==> name_lt(#[trigger] self@[j].name, name@),
                spec_insert(self@, target) == self@.subrange(0, i as int) + spec_insert(
                    self@.skip(i as int),
                    target,
                ),
            decreases self@.len() - i,
        {
            proof {
                if i < self@.len() {
                    assert(self@.skip(i as int)[0] == self@[i as int]);
                    assert(self@[i as int] == self.entries@[i as int]@);
                }
            }
            if i == self.entries.len() {
                let ghost pre = self@;
                let e = ToolEntry {
                    name,
                    tool,
                    metadata,
                    last_invoked_ms: None,
                    window: None,
                };
                proof {
                    assert(pre.skip(i as int).len() == 0);
                    assert(e@ =~= target);
                }
                self.entries.push(e);
                proof {
                    assert(self@.len() == pre.len() + 1);
                    assert(forall|j: int| 0 <= j < pre.len() ==> self@[j] == pre[j]);
                    assert(self@[pre.len() as int] == e@);
                    assert(self@ =~~= pre.subrange(0, i as int) + seq![target]);
                    assert(spec_insert(pre, target) == pre.subrange(0, i as int) + seq![target]);
                    lemma_insert_sorted(pre, target, i as int);
                }
                return;
            }
            let cmp_lt = str_lt(name.as_str(), self.entries[i].name.as_str());
            let cmp_eq = str_eq(name.as_str(), self.entries[i].name.as_str());
            if cmp_lt {
                let ghost pre = self@;
                let e = ToolEntry {
                    name,
                    tool,
                    metadata,
                    last_invoked_ms: None,
                    window: None,
                };
                proof {
                    assert(e@ =~= target);
                }
                self.entries.insert(i, e);
                proof {
                    assert(self@ =~~= pre.subrange(0, i as int) + (seq![target] + pre.skip(
                        i as int,
                    )));
                    assert(spec_insert(pre.skip(i as int), target) == seq![target] + pre.skip(
                        i as int,
                    ));
                    lemma_insert_sorted(pre, target, i as int);
                }
                return;
            }
            if cmp_eq {
                let ghost pre = self@;
                let e = ToolEntry {
                    name,
                    tool,
                    metadata,
                    last_invoked_ms: None,
                    window: None,
                };
                proof {
                    assert(e@ =~= target);
                }
                let _old_entry = self.entries.remove(i);
                self.entries.insert(i, e);
                proof {
                    assert(self@ =~~= pre.subrange(0, i as int) + (seq![target] + pre.skip(
                        i as int,
                    ).drop_first()));
                    assert(spec_insert(pre.skip(i as int), target) == seq![target] + pre.skip(
                        i as int,
                    ).drop_first());
                    lemma_insert_sorted(pre, target, i as int);
                }
                return;
            }
            proof {
                lemma_not_lt_not_eq(name@, self@[i as int].name);
                assert(self@.skip(i as int).drop_first() =~= self@.skip(i as int + 1));
                assert(self@.subrange(0, i as int + 1) =~= self@.subrange(0, i as int) + seq![
                    self@[i as int],
                ]);
                assert(self@.subrange(0, i as int) + (seq![self@[i as int]] + spec_insert(
                    self@.skip(i as int + 1),
                    target,
                )) =~= self@.subrange(0, i as int + 1) + spec_insert(
                    self@.skip(i as int + 1),
                    target,
                ));
            }
            i = i + 1;
        }
    }

    /// Registers a tool under the name its body reports, with the given
    /// metadata.
    pub fn register_with_metadata(&mut self, tool: Box<dyn Tool>, metadata: ToolMetadata)
        requires
            old(self).wf(),
        ensures
            final(self).wf(),
            exists|nm: Seq<char>|
                final(self)@ == spec_insert(
                    old(self)@,
                    ToolEntryV {
                        name: nm,
                        metadata: metadata@,
                        last_invoked_ms: None,
                        window: None,
                    },
                ),
    {
        let boxed = ToolBox::new(tool);
        let name = boxed.tool_name();
        self.register_named(name, boxed, metadata);
    }

    /// Registers a tool under the name its body reports, with default
    /// metadata.
    pub fn register(&mut self, tool: Box<dyn Tool>)
        requires
            old(self).wf(),
        ensures
            final(self).wf(),
            exists|nm: Seq<char>, md: ToolMetadataV|
                md.allowed_roles.len() == 0 && md.cooldown_ms is None && md.rate_limit is None
                    && md.access_controller is None && final(self)@ == spec_insert(
                    old(self)@,
                    ToolEntryV { name: nm, metadata: md, last_invoked_ms: None, window: None },
                ),
    {
        let md = ToolMetadata::default();
        let ghost mdv = md@;
        self.register_with_metadata(tool, md);
    }

    /// The position of the entry named `name`.
    fn find(&self, name: &str) -> (r: Option<usize>)
        ensures
            match r {
                Some(i) => i < self@.len() && find_entry(self@, name@) == Some(i as int),
                None => find_entry(self@, name@) is None,
            },
    {
        let mut i: usize = 0;
        proof {
            assert(self@.skip(0) == self@);
        }
        loop
            invariant
                i <= self@.len(),
                find_entry(self@, name@) == match find_entry(self@.skip(i as int), name@) {
                    Some(k) => Some(k + i),
                    None => None::<int>,
                },
            decreases self@.len() - i,
        {
            if i == self.entries.len() {
                proof {
                    assert(self@.skip(i as int).len() == 0);
                }
                return None;
            }
            proof {
                assert(self@.skip(i as int)[0] == self@[i as int]);
                assert(self@[i as int] == self.entries@[i as int]@);
            }
            if str_eq(self.entries[i].name.as_str(), name) {
                return Some(i);
            }
            proof {
                assert(self@.skip(i as int).drop_first() =~= self@.skip(i as int + 1));
            }
            i = i + 1;
        }
    }

    /// The tool body registered under `name`, bypassing every policy
    /// gate: for callers that manage their own authorization.
    pub fn get(&self, name: &str) -> (r: Option<&ToolBox>)
        ensures
            (r is Some) == (find_entry(self@, name@) is Some),
    {
        match self.find(name) {
            Some(i) => Some(&self.entries[i].tool),
            None => None,
        }
    }

    /// The metadata registered under `name`.
    pub fn get_metadata(&self, name: &str) -> (r: Option<ToolMetadata>)
        ensures
            match r {
                Some(md) => {
                    &&& find_entry(self@, name@) matches Some(i)
                    &&& md@ == self@[find_entry(self@, name@)->Some_0].metadata
                },
                None => find_entry(self@, name@) is None,
            },
    {
        match self.find(name) {
            Some(i) => Some(self.entries[i].metadata.duplicate()),
            None => None,
        }
    }

    /// Every registered name, in the registry's name order.
    pub fn list(&self) -> (r: Vec<String>)
        ensures
            r@.len() == self@.len(),
            forall|i: int| 0 <= i < r@.len() ==> r@[i]@ == self@[i].name,
    {
        let mut out: Vec<String> = Vec::new();
        let mut i: usize = 0;
        while i < self.entries.len()
            invariant
                i <= self@.len(),
                out@.len() == i as int,
                forall|j: int| 0 <= j < i as int ==> out@[j]@ == self@[j].name,
            decreases self@.len() - i,
        {
            out.push(self.entries[i].name.clone());
            i = i + 1;
        }
        out
    }

    /// Every registered name with its metadata, in name order.
    pub fn list_with_metadata(&self) -> (r: Vec<(String, ToolMetadata)>)
        ensures
            r@.len() == self@.len(),
            forall|i: int| 0 <= i < r@.len() ==> (#[trigger] r@[i]).0@ == self@[i].name,
            forall|i: int| 0 <= i < r@.len() ==> (#[trigger] r@[i]).1@ == self@[i].metadata,
    {
        let mut out: Vec<(String, ToolMetadata)> = Vec::new();
        let mut i: usize = 0;
        while i < self.entries.len()
            invariant
                i <= self@.len(),
                out@.len() == i as int,
                forall|j: int| 0 <= j < i as int ==> (#[trigger] out@[j]).0@ == self@[j].name,
                forall|j: int| 0 <= j < i as int ==> (#[trigger] out@[j]).1@ == self@[j].metadata,
            decreases self@.len() - i,
        {
            proof {
                assert(self@[i as int] == self.entries@[i as int]@);
            }
            out.push((self.entries[i].name.clone(), self.entries[i].metadata.duplicate()));
            i = i + 1;
        }
        out
    }
}


/// Whether two role lists share a role, decided pairwise on text.
fn roles_intersect(a: &[String], b: &[String]) -> (r: bool)
    ensures
        r == has_common_role(strs_view(a@), strs_view(b@)),
{
    let mut i: usize = 0;
    while i < a.len()
        invariant
            i <= a@.len(),
            forall|ii: int, jj: int|
                0 <= ii < i as int && 0 <= jj < b@.len() ==> #[trigger] a@[ii]@ != #[trigger] b@[jj]@,
        decreases a@.len() - i,
    {
        let mut j: usize = 0;
        while j < b.len()
            invariant
                i < a@.len(),
                j <= b@.len(),
                forall|jj: int| 0 <= jj < j as int ==> a@[i as int]@ != #[trigger] b@[jj]@,
        decreases b@.len() - j,
        {
            if str_eq(a[i].as_str(), b[j].as_str()) {
                proof {
                    assert(strs_view(a@)[i as int] == a@[i as int]@);
                    assert(strs_view(b@)[j as int] == b@[j as int]@);
                }
                return true;
            }
            j = j + 1;
        }
        i = i + 1;
    }
    proof {
        assert forall|ii: int, jj: int|
            !(0 <= ii < strs_view(a@).len() && 0 <= jj < strs_view(b@).len()
                && #[trigger] strs_view(a@)[ii] == #[trigger] strs_view(b@)[jj]) by {
            if 0 <= ii < a@.len() && 0 <= jj < b@.len() {
                assert(a@[ii]@ != b@[jj]@);
            }
        }
    }
    false
}

impl ToolRegistry {
    /// The policy-checked invocation path: look the tool up, then apply
    /// the access, cooldown and rate-limit gates in that fixed order,
    /// and only then run the tool body, passing its result or error
    /// through. A cooldown stamps its timestamp as soon as it passes,
    /// even when the rate limit then refuses; refused calls leave no
    /// other trace.
    pub fn invoke(
        &mut self,
        name: &str,
        args: JsonValue,
        caller_roles: &[String],
        now_ms: u64,
    ) -> (r: Result<JsonValue, ToolInvocationError>)
        requires
            old(self).wf(),
        ensures
            final(self).wf(),
            ({
                let roles = strs_view(caller_roles@);
                match find_entry(old(self)@, name@) {
                    None => {
                        &&& r matches Err(ToolInvocationError::NotFound(n)) && n@ == name@
                        &&& final(self)@ == old(self)@
                    },
                    Some(i) => {
                        let e = old(self)@[i];
                        if !access_ok(e.metadata, roles) {
                            &&& r matches Err(ToolInvocationError::AccessDenied { tool, reason })
                                && tool@ == name@ && reason@ == denial_reason(e.metadata)
                            &&& final(self)@ == old(self)@
                        } else if cooling_remaining(
                            e.metadata.cooldown_ms,
                            e.last_invoked_ms,
                            now_ms,
                        ) is Some {
                            &&& r matches Err(ToolInvocationError::CoolingDown {
                                tool,
                                remaining_ms,
                            }) && tool@ == name@ && Some(remaining_ms) == cooling_remaining(
                                e.metadata.cooldown_ms,
                                e.last_invoked_ms,
                                now_ms,
                            )
                            &&& final(self)@ == old(self)@
                        } else {
                            let last2: Option<u64> = if e.metadata.cooldown_ms is Some {
                                Some(now_ms)
                            } else {
                                e.last_invoked_ms
                            };
                            match e.metadata.rate_limit {
                                Some(rl) => {
                                    let w = live_window(e.window, rl, now_ms);
                                    match rate_retry_after(w, rl, now_ms) {
                                        Some(after) => {
                                            &&& r matches Err(ToolInvocationError::RateLimited {
                                                tool,
                                                retry_after_ms,
                                            }) && tool@ == name@ && retry_after_ms == after
                                            &&& final(self)@ == old(self)@.update(
                                                i,
                                                ToolEntryV {
                                                    last_invoked_ms: last2,
                                                    window: Some(w),
                                                    ..e
                                                },
                                            )
                                        },
                                        None => {
                                            &&& (r is Ok || (r matches Err(
                                                ToolInvocationError::Tool(_),
                                            )))
                                            &&& final(self)@ == old(self)@.update(
                                                i,
                                                ToolEntryV {
                                                    last_invoked_ms: last2,
                                                    window: Some(
                                                        RateWindow {
                                                            started_at_ms: w.started_at_ms,
                                                            calls: (w.calls + 1) as u64,
                                                        },
                                                    ),
                                                    ..e
                                                },
                                            )
                                        },
                                    }
                                },
                                None => {
                                    &&& (r is Ok || (r matches Err(
                                        ToolInvocationError::Tool(_),
                                    )))
                                    &&& final(self)@ == old(self)@.update(
                                        i,
                                        ToolEntryV { last_invoked_ms: last2, window: e.window, ..e },
                                    )
                                },
                            }
                        }
                    },
                }
            }),
    {
        let idx = match self.find(name) {
            Some(i) => i,
            None => {
                return Err(ToolInvocationError::NotFound(name.to_owned()));
            },
        };
        let ghost e0 = self@[idx as int];
        proof {
            assert(self@[idx as int] == self.entries@[idx as int]@);
        }
        // Access gate.
        let allowed_empty = self.entries[idx].metadata.allowed_roles.len() == 0;
        let role_permitted = if allowed_empty {
            true
        } else {
            roles_intersect(caller_roles, self.entries[idx].metadata.allowed_roles.as_slice())
        };
        let controller_permitted = match &self.entries[idx].metadata.access_controller {
            None => true,
            Some(c) => {
                if c.required_roles.len() == 0 {
                    true
                } else {
                    roles_intersect(c.required_roles.as_slice(), caller_roles)
                }
            },
        };
        if !(role_permitted && controller_permitted) {
            let reason: String = match &self.entries[idx].metadata.access_controller {
                Some(c) => match &c.policy_name {
                    Some(n) => n.clone(),
                    None => "caller lacks required role".to_owned(),
                },
                None => "caller lacks required role".to_owned(),
            };
            proof {
                assert(!access_ok(e0.metadata, strs_view(caller_roles@)));
            }
            return Err(ToolInvocationError::AccessDenied { tool: name.to_owned(), reason });
        }
        proof {
            assert(access_ok(e0.metadata, strs_view(caller_roles@)));
        }
        // Cooldown gate: the timestamp is stamped as soon as it passes.
        if let Some(cd) = self.entries[idx].metadata.cooldown_ms {
            if let Some(last) = self.entries[idx].last_invoked_ms {
                let elapsed: u64 = if now_ms >= last {
                    now_ms - last
                } else {
                    0
                };
                if elapsed < cd {
                    return Err(ToolInvocationError::CoolingDown {
                        tool: name.to_owned(),
                        remaining_ms: cd - elapsed,
                    });
                }
            }
            let entry = &mut self.entries[idx];
            entry.last_invoked_ms = Some(now_ms);
        }
        proof {
            assert(self@ =~~= old(self)@.update(
                idx as int,
                ToolEntryV {
                    last_invoked_ms: if e0.metadata.cooldown_ms is Some {
                        Some(now_ms)
                    } else {
                        e0.last_invoked_ms
                    },
                    ..e0
                },
            ));
        }
        // Rate-limit gate: a fixed window per tool name.
        if let Some(rl) = self.entries[idx].metadata.rate_limit {
            let w0: RateWindow = match self.entries[idx].window {
                Some(w) => {
                    let elapsed: u64 = if now_ms >= w.started_at_ms {
                        now_ms - w.started_at_ms
                    } else {
                        0
                    };
                    if elapsed > rl.per_ms {
                        RateWindow { started_at_ms: now_ms, calls: 0 }
                    } else {
                        w
                    }
                },
                None => RateWindow { started_at_ms: now_ms, calls: 0 },
            };
            proof {
                assert(w0 == live_window(e0.window, rl, now_ms));
            }
            if w0.calls >= rl.max_calls {
                let elapsed: u64 = if now_ms >= w0.started_at_ms {
                    now_ms - w0.started_at_ms
                } else {
                    0
                };
                let retry_after: u64 = if rl.per_ms >= elapsed {
                    rl.per_ms - elapsed
                } else {
                    0
                };
                let entry = &mut self.entries[idx];
                entry.window = Some(w0);
                proof {
                    assert(self@ =~~= old(self)@.update(
                        idx as int,
                        ToolEntryV {
                            last_invoked_ms: if e0.metadata.cooldown_ms is Some {
                                Some(now_ms)
                            } else {
                                e0.last_invoked_ms
                            },
                            window: Some(w0),
                            ..e0
                        },
                    ));
                }
                return Err(ToolInvocationError::RateLimited {
                    tool: name.to_owned(),
                    retry_after_ms: retry_after,
                });
            }
            let entry = &mut self.entries[idx];
            entry.window = Some(RateWindow { started_at_ms: w0.started_at_ms, calls: w0.calls + 1 });
            proof {
                assert(self@ =~~= old(self)@.update(
                    idx as int,
                    ToolEntryV {
                        last_invoked_ms: if e0.metadata.cooldown_ms is Some {
                            Some(now_ms)
                        } else {
                            e0.last_invoked_ms
                        },
                        window: Some(
                            RateWindow {
                                started_at_ms: w0.started_at_ms,
                                calls: (w0.calls + 1) as u64,
                            },
                        ),
                        ..e0
                    },
                ));
            }
        }
        // All gates passed: run the tool body and pass its result through.
        match self.entries[idx].tool.execute(args) {
            Ok(v) => Ok(v),
            Err(te) => Err(ToolInvocationError::Tool(te)),
        }
    }
}


/// The rate window as it stands before call number `j` (counting from
/// zero): calls before it arrived at the given times against a window
/// first opened at `t0`.
pub open spec fn window_iter(rl: RateLimitPolicy, t0: u64, times: Seq<u64>, j: int) -> RateWindow
    decreases j,
{
    if j <= 0 {
        RateWindow { started_at_ms: t0, calls: 0 }
    } else {
        let w = window_iter(rl, t0, times, j - 1);
        let lw = live_window(Some(w), rl, times[j - 1]);
        if rate_retry_after(lw, rl, times[j - 1]) is None {
            RateWindow { started_at_ms: lw.started_at_ms, calls: (lw.calls + 1) as u64 }
        } else {
            lw
        }
    }
}

/// Law: against one window — calls arriving before the window elapses —
/// a tool capped at `max_calls` admits exactly the first `max_calls`
/// invocations; from then on each attempt is refused, and the counter
/// stays put, until the window elapses.
pub proof fn lemma_rate_limit_exact(rl: RateLimitPolicy, t0: u64, times: Seq<u64>, j: int)
    requires
        0 <= j < times.len(),
        rl.max_calls < u64::MAX,
        forall|i: int|
            0 <= i < times.len() ==> t0 <= #[trigger] times[i] && times[i] - t0 <= rl.per_ms,
    ensures
        ({
            let w = window_iter(rl, t0, times, j);
            &&& w.started_at_ms == t0
            &&& w.calls == if j <= rl.max_calls {
                j
            } else {
                rl.max_calls as int
            }
            &&& (rate_retry_after(live_window(Some(w), rl, times[j]), rl, times[j]) is None
                <==> j < rl.max_calls)
        }),
    decreases j,
{
    if j > 0 {
        lemma_rate_limit_exact(rl, t0, times, j - 1);
    }
}

/// An inserted entry keeps the order strict when it lands at its place.
proof fn lemma_insert_sorted(s: Seq<ToolEntryV>, e: ToolEntryV, at: int)
    requires
        entries_sorted(s),
    ensures
        entries_sorted(spec_insert(s, e)),
    decreases s.len(),
{
    if s.len() > 0 {
        if name_lt(e.name, s[0].name) {
            assert forall|i: int, j: int| 0 <= i < j < (seq![e] + s).len() implies name_lt(
                (seq![e] + s)[i].name,
                (seq![e] + s)[j].name,
            ) by {
                if i == 0 {
                    if j > 1 {
                        lemma_name_lt_trans(e.name, s[0].name, s[j - 1].name);
                    }
                } else {
                    assert((seq![e] + s)[i] == s[i - 1]);
                    assert((seq![e] + s)[j] == s[j - 1]);
                }
            }
        } else if e.name == s[0].name {
            assert forall|i: int, j: int|
                0 <= i < j < (seq![e] + s.drop_first()).len() implies name_lt(
                (seq![e] + s.drop_first())[i].name,
                (seq![e] + s.drop_first())[j].name,
            ) by {
                if i == 0 {
                    assert(s.drop_first()[j - 1] == s[j]);
                } else {
                    assert(s.drop_first()[i - 1] == s[i]);
                    assert(s.drop_first()[j - 1] == s[j]);
                }
            }
        } else {
            assert(forall|i: int, j: int|
                0 <= i < j < s.drop_first().len() ==> name_lt(
                    #[trigger] s.drop_first()[i].name,
                    #[trigger] s.drop_first()[j].name,
                ));
            lemma_insert_sorted(s.drop_first(), e, at - 1);
            lemma_not_lt_not_eq(e.name, s[0].name);
            lemma_insert_front(s.drop_first(), e, s[0]);
        }
    }
}

/// Byte order on names is total: two names that are not ordered either
/// way are equal.
proof fn lemma_not_lt_not_eq(a: Seq<char>, b: Seq<char>)
    requires
        !name_lt(a, b),
        a != b,
    ensures
        name_lt(b, a),
{
    lemma_bytes_lt_total(encode_utf8(a), encode_utf8(b));
    if encode_utf8(a) == encode_utf8(b) {
        vstd::utf8::encode_utf8_decode_utf8(a);
        vstd::utf8::encode_utf8_decode_utf8(b);
    }
}

proof fn lemma_bytes_lt_total(x: Seq<u8>, y: Seq<u8>)
    ensures
        bytes_lt(x, y) || bytes_lt(y, x) || x == y,
    decreases x.len(),
{
    if y.len() == 0 || x.len() == 0 {
        if x.len() == 0 && y.len() == 0 {
            assert(x =~= y);
        }
    } else if x[0] == y[0] {
        lemma_bytes_lt_total(x.drop_first(), y.drop_first());
        if x.drop_first() == y.drop_first() {
            assert(x =~= seq![x[0]] + x.drop_first());
            assert(y =~= seq![y[0]] + y.drop_first());
        }
    }
}

/// Byte order on names is transitive.
proof fn lemma_bytes_lt_trans(x: Seq<u8>, y: Seq<u8>, z: Seq<u8>)
    requires
        bytes_lt(x, y),
        bytes_lt(y, z),
    ensures
        bytes_lt(x, z),
    decreases x.len(),
{
    if z.len() == 0 || y.len() == 0 {
    } else if x.len() == 0 {
    } else {
        if x[0] == y[0] && y[0] == z[0] {
            lemma_bytes_lt_trans(x.drop_first(), y.drop_first(), z.drop_first());
        }
    }
}

/// Name order is transitive.
proof fn lemma_name_lt_trans(a: Seq<char>, b: Seq<char>, c: Seq<char>)
    requires
        name_lt(a, b),
        name_lt(b, c),
    ensures
        name_lt(a, c),
{
    lemma_bytes_lt_trans(encode_utf8(a), encode_utf8(b), encode_utf8(c));
}

/// Everything smaller than a sorted tail's head may stand in front of
/// an insertion into that tail.
proof fn lemma_insert_front(s: Seq<ToolEntryV>, e: ToolEntryV, h: ToolEntryV)
    requires
        entries_sorted(s),
        entries_sorted(spec_insert(s, e)),
        name_lt(h.name, e.name),
        forall|i: int| 0 <= i < s.len() ==> name_lt(h.name, #[trigger] s[i].name),
    ensures
        entries_sorted(seq![h] + spec_insert(s, e)),
{
    lemma_insert_members(s, e);
    let t = spec_insert(s, e);
    assert forall|i: int, j: int| 0 <= i < j < (seq![h] + t).len() implies name_lt(
        (seq![h] + t)[i].name,
        (seq![h] + t)[j].name,
    ) by {
        if i == 0 {
            assert((seq![h] + t)[j] == t[j - 1]);
            assert(t[j - 1] == e || s.contains(t[j - 1]));
            if s.contains(t[j - 1]) {
                let k = choose|k: int| 0 <= k < s.len() && s[k] == t[j - 1];
                assert(name_lt(h.name, s[k].name));
            }
        } else {
            assert((seq![h] + t)[i] == t[i - 1]);
            assert((seq![h] + t)[j] == t[j - 1]);
        }
    }
}

/// Whatever an insertion yields was the new entry or already present.
proof fn lemma_insert_members(s: Seq<ToolEntryV>, e: ToolEntryV)
    ensures
        forall|i: int|
            0 <= i < spec_insert(s, e).len() ==> #[trigger] spec_insert(s, e)[i] == e
                || s.contains(spec_insert(s, e)[i]),
    decreases s.len(),
{
    if s.len() == 0 {
    } else if name_lt(e.name, s[0].name) {
        assert forall|i: int| 0 <= i < spec_insert(s, e).len() implies #[trigger] spec_insert(
            s,
            e,
        )[i] == e || s.contains(spec_insert(s, e)[i]) by {
            if i > 0 {
                assert(spec_insert(s, e)[i] == s[i - 1]);
            }
        }
    } else if e.name == s[0].name {
        assert forall|i: int| 0 <= i < spec_insert(s, e).len() implies #[trigger] spec_insert(
            s,
            e,
        )[i] == e || s.contains(spec_insert(s, e)[i]) by {
            if i > 0 {
                assert(spec_insert(s, e)[i] == s.drop_first()[i - 1]);
                assert(s.drop_first()[i - 1] == s[i]);
            }
        }
    } else {
        lemma_insert_members(s.drop_first(), e);
        assert forall|i: int| 0 <= i < spec_insert(s, e).len() implies #[trigger] spec_insert(
            s,
            e,
        )[i] == e || s.contains(spec_insert(s, e)[i]) by {
            if i > 0 {
                assert(spec_insert(s, e)[i] == spec_insert(s.drop_first(), e)[i - 1]);
                if s.drop_first().contains(spec_insert(s.drop_first(), e)[i - 1]) {
                    let k = choose|k: int|
                        0 <= k < s.drop_first().len() && s.drop_first()[k] == spec_insert(
                            s.drop_first(),
                            e,
                        )[i - 1];
                    assert(s[k + 1] == s.drop_first()[k]);
                }
            }
        }
    }
}

} // verus!
