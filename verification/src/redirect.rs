//! Redirect configuration: the `ID:IFACE` options, the automatic
//! `veth0..vethN` mapping, and the interface index files of sysfs.

use vstd::prelude::*;
use vstd::string::*;
use crate::protocol::MAX_PROPOSERS;
use crate::text::{decimal, decimal_string, lemma_decimal_digits, lemma_parse_decimal_roundtrip, parse_u32, spec_parse_u32, trim, trim_str};

verus! {

/// Why a redirect option was refused; `S` is the string type (`String` in
/// code, `Seq<char>` in specifications).
#[derive(Clone, Debug, PartialEq, Eq)]
pub enum RedirectError<S> {
    /// The option is not of the form `ID:IFACE` with exactly one colon.
    Format,
    /// The text before the colon is not a decimal `u32`.
    ProposerId(S),
    /// The proposer id is not below `MAX_PROPOSERS`.
    OutOfRange(u32),
}

impl View for RedirectError<String> {
    type V = RedirectError<Seq<char>>;

    open spec fn view(&self) -> RedirectError<Seq<char>> {
        match self {
            RedirectError::Format => RedirectError::Format,
            RedirectError::ProposerId(t) => RedirectError::ProposerId(t@),
            RedirectError::OutOfRange(id) => RedirectError::OutOfRange(*id),
        }
    }
}

/// Whether `k` is the position of the one and only colon of `s`.
pub open spec fn single_colon_at(s: Seq<char>, k: int) -> bool {
    &&& 0 <= k < s.len()
    &&& s[k] == ':'
    &&& forall|i: int| 0 <= i < s.len() && i != k ==> #[trigger] s[i] != ':'
}

/// The meaning of a redirect option `ID:IFACE`: splitting at `:` must give
/// exactly two parts, the first a decimal proposer id below `MAX_PROPOSERS`.
pub open spec fn spec_parse_redirect(s: Seq<char>) -> Result<(u32, Seq<char>), RedirectError<Seq<char>>> {
    if exists|k: int| single_colon_at(s, k) {
        let k = choose|k: int| single_colon_at(s, k);
        match spec_parse_u32(s.take(k)) {
            None => Err(RedirectError::ProposerId(s.take(k))),
            Some(id) => if id >= MAX_PROPOSERS {
                Err(RedirectError::OutOfRange(id))
            } else {
                Ok((id, s.skip(k + 1)))
            },
        }
    } else {
        Err(RedirectError::Format)
    }
}

/// The view of a parse result.
pub open spec fn redirect_result_view(r: Result<(u32, String), RedirectError<String>>) -> Result<
    (u32, Seq<char>),
    RedirectError<Seq<char>>,
> {
    match r {
        Ok((id, iface)) => Ok((id, iface@)),
        Err(e) => Err(e@),
    }
}

/// A redirect option written as the decimal proposer id, a colon and an
/// interface name without colons is read back as that id and that name.
pub proof fn lemma_redirect_option_roundtrip(id: u32, iface: Seq<char>)
    requires
        id < MAX_PROPOSERS,
        forall|i: int| 0 <= i < iface.len() ==> #[trigger] iface[i] != ':',
    ensures
        spec_parse_redirect(decimal(id as nat) + ":"@ + iface) == Ok::<
            (u32, Seq<char>),
            RedirectError<Seq<char>>,
        >((id, iface)),
{
    reveal_strlit(":");
    let d = decimal(id as nat);
    let s = d + ":"@ + iface;
    lemma_decimal_digits(id as nat);
    lemma_parse_decimal_roundtrip(id);
    let k = d.len() as int;
    assert forall|i: int| 0 <= i < s.len() && i != k implies #[trigger] s[i] != ':' by {
        if i < k {
            assert(s[i] == d[i]);
        } else {
            assert(s[i] == iface[i - k - 1]);
        }
    }
    assert(single_colon_at(s, k));
    assert forall|m: int| single_colon_at(s, m) implies m == k by {
        if m != k {
            assert(s[k] != ':');
        }
    }
    assert(s.take(k) =~= d);
    assert(s.skip(k + 1) =~= iface);
}

/// Parses one redirect option `ID:IFACE`.
pub fn parse_redirect(spec: &str) -> (r: Result<(u32, String), RedirectError<String>>)
    ensures
        redirect_result_view(r) == spec_parse_redirect(spec@),
{
    let n = spec.unicode_len();
    let mut first: Option<usize> = None;
    let mut repeated = false;
    let mut i: usize = 0;
    while i < n
        invariant
            i <= n,
            n == spec@.len(),
            first is None ==> forall|j: int| 0 <= j < i ==> #[trigger] spec@[j] != ':',
            first is None ==> !repeated,
            first matches Some(k) ==> k < i && spec@[k as int] == ':',
            first is Some && !repeated ==> forall|j: int|
                0 <= j < i && j != first->0 ==> #[trigger] spec@[j] != ':',
            first is Some && repeated ==> exists|j: int|
                0 <= j < i && j != first->0 && #[trigger] spec@[j] == ':',
        decreases n - i,
    {
        if spec.get_char(i) == ':' {
            match first {
                None => {
                    first = Some(i);
                },
                Some(k) => {
                    repeated = true;
                    assert(spec@[i as int] == ':' && i != k);
                },
            }
        }
        i = i + 1;
    }
    let k = match first {
        None => {
            assert(!exists|k: int| single_colon_at(spec@, k));
            return Err(RedirectError::Format);
        },
        Some(k) => k,
    };
    if repeated {
        assert forall|m: int| !single_colon_at(spec@, m) by {
            let j = choose|j: int| 0 <= j < n && j != k && #[trigger] spec@[j] == ':';
            if single_colon_at(spec@, m) {
                if m != k {
                    assert(spec@[k as int] != ':');
                } else {
                    assert(spec@[j] != ':');
                }
            }
        }
        return Err(RedirectError::Format);
    }
    assert(single_colon_at(spec@, k as int));
    assert forall|m: int| single_colon_at(spec@, m) implies m == k by {
        if m != k {
            assert(spec@[k as int] != ':');
        }
    }
    let id_text = spec.substring_char(0, k);
    assert(id_text@ =~= spec@.take(k as int));
    match parse_u32(id_text) {
        None => Err(RedirectError::ProposerId(String::from_str(id_text))),
        Some(id) => {
            if id >= MAX_PROPOSERS {
                Err(RedirectError::OutOfRange(id))
            } else {
                let iface = spec.substring_char(k + 1, n);
                assert(iface@ =~= spec@.skip(k + 1));
                Ok((id, String::from_str(iface)))
            }
        },
    }
}

/// One line of the redirect plan; `S` is the string type.
#[derive(Clone, Debug, PartialEq, Eq)]
pub enum RedirectEntry<S> {
    /// From `--auto-redirect`: proposer `proposer_id` to interface `veth<id>`.
    Auto { proposer_id: u32, iface: S },
    /// From a valid `--redirect ID:IFACE` option.
    Explicit { proposer_id: u32, iface: S },
    /// A `--redirect` option that was refused, and why.
    Rejected { spec: S, error: RedirectError<S> },
}

impl View for RedirectEntry<String> {
    type V = RedirectEntry<Seq<char>>;

    open spec fn view(&self) -> RedirectEntry<Seq<char>> {
        match self {
            RedirectEntry::Auto { proposer_id, iface } => RedirectEntry::Auto {
                proposer_id: *proposer_id,
                iface: iface@,
            },
            RedirectEntry::Explicit { proposer_id, iface } => RedirectEntry::Explicit {
                proposer_id: *proposer_id,
                iface: iface@,
            },
            RedirectEntry::Rejected { spec, error } => RedirectEntry::Rejected {
                spec: spec@,
                error: error@,
            },
        }
    }
}

/// The views of a sequence of plan entries.
pub open spec fn entries_view(v: Seq<RedirectEntry<String>>) -> Seq<RedirectEntry<Seq<char>>> {
    v.map_values(|e: RedirectEntry<String>| e@)
}

/// The interface name that `--auto-redirect` gives proposer `i`.
pub open spec fn auto_iface(i: nat) -> Seq<char> {
    "veth"@ + decimal(i)
}

/// The entries of `--auto-redirect count`: proposers `0..min(count, MAX_PROPOSERS)`.
pub open spec fn auto_entries(count: nat) -> Seq<RedirectEntry<Seq<char>>> {
    Seq::new(
        if count < MAX_PROPOSERS { count } else { MAX_PROPOSERS as nat },
        |i: int| RedirectEntry::Auto { proposer_id: i as u32, iface: auto_iface(i as nat) },
    )
}

/// The entry for one `--redirect` option.
pub open spec fn explicit_entry(s: Seq<char>) -> RedirectEntry<Seq<char>> {
    match spec_parse_redirect(s) {
        Ok((id, iface)) => RedirectEntry::Explicit { proposer_id: id, iface },
        Err(e) => RedirectEntry::Rejected { spec: s, error: e },
    }
}

/// The redirect plan: the automatic entries first, then one entry per
/// `--redirect` option, in order.
pub open spec fn redirect_plan(redirects: Seq<Seq<char>>, auto_redirect: Option<u32>) -> Seq<
    RedirectEntry<Seq<char>>,
> {
    let auto = match auto_redirect {
        Some(n) => auto_entries(n as nat),
        None => Seq::empty(),
    };
    auto + redirects.map_values(|s: Seq<char>| explicit_entry(s))
}

/// The views of a sequence of strings.
pub open spec fn strings_view(v: Seq<String>) -> Seq<Seq<char>> {
    v.map_values(|s: String| s@)
}

/// The name of the interface `--auto-redirect` maps proposer `i` to.
pub fn auto_redirect_iface(i: u32) -> (name: String)
    ensures
        name@ == auto_iface(i as nat),
{
    let mut name = String::from_str("veth");
    let digits = decimal_string(i as u64);
    name.append(digits.as_str());
    name
}

/// Computes the redirect plan from the `--redirect` options and the
/// `--auto-redirect` count; the caller resolves each interface and installs
/// the accepted entries.
pub fn plan_redirects(redirects: &[String], auto_redirect: Option<u32>) -> (plan: Vec<
    RedirectEntry<String>,
>)
    ensures
        entries_view(plan@) == redirect_plan(strings_view(redirects@), auto_redirect),
{
    let mut plan: Vec<RedirectEntry<String>> = Vec::new();
    let count: u32 = match auto_redirect {
        Some(n) => if n < MAX_PROPOSERS {
            n
        } else {
            MAX_PROPOSERS
        },
        None => 0,
    };
    let ghost auto = match auto_redirect {
        Some(n) => auto_entries(n as nat),
        None => Seq::<RedirectEntry<Seq<char>>>::empty(),
    };
    assert(auto.len() == count);
    let mut i: u32 = 0;
    while i < count
        invariant
            i <= count,
            auto.len() == count,
            entries_view(plan@) =~= auto.take(i as int),
            forall|j: int| 0 <= j < count ==> #[trigger] auto[j] == (RedirectEntry::Auto {
                proposer_id: j as u32,
                iface: auto_iface(j as nat),
            }),
        decreases count - i,
    {
        let entry = RedirectEntry::Auto { proposer_id: i, iface: auto_redirect_iface(i) };
        let ghost before = plan@;
        plan.push(entry);
        assert(entries_view(plan@) =~= entries_view(before).push(entry@));
        i = i + 1;
        assert(entries_view(plan@) =~= auto.take(i as int));
    }
    assert(auto.take(i as int) =~= auto);
    let ghost explicit = strings_view(redirects@).map_values(|s: Seq<char>| explicit_entry(s));
    let mut r: usize = 0;
    while r < redirects.len()
        invariant
            r <= redirects@.len(),
            explicit.len() == redirects@.len(),
            explicit == strings_view(redirects@).map_values(|s: Seq<char>| explicit_entry(s)),
            entries_view(plan@) =~= auto + explicit.take(r as int),
        decreases redirects@.len() - r,
    {
        let parsed = parse_redirect(redirects[r].as_str());
        let entry = match parsed {
            Ok((proposer_id, iface)) => RedirectEntry::Explicit { proposer_id, iface },
            Err(error) => RedirectEntry::Rejected { spec: redirects[r].clone(), error },
        };
        assert(entry@ == explicit[r as int]);
        let ghost before = plan@;
        plan.push(entry);
        assert(entries_view(plan@) =~= entries_view(before).push(entry@));
        r = r + 1;
        assert(entries_view(plan@) =~= auto + explicit.take(r as int));
    }
    assert(explicit.take(r as int) =~= explicit);
    plan
}

/// The proposer an accepted plan entry redirects, `None` for a rejected one.
pub open spec fn entry_proposer(e: RedirectEntry<Seq<char>>) -> Option<u32> {
    match e {
        RedirectEntry::Auto { proposer_id, .. } => Some(proposer_id),
        RedirectEntry::Explicit { proposer_id, .. } => Some(proposer_id),
        RedirectEntry::Rejected { .. } => None,
    }
}

/// The redirect map writes of a plan whose entries' interfaces resolved to
/// `lookups` (one per entry; `None` where the interface was not found): one
/// `(proposer, ifindex)` write per accepted entry whose interface resolved, in
/// plan order.
pub open spec fn planned_writes(plan: Seq<RedirectEntry<Seq<char>>>, lookups: Seq<Option<u32>>) -> Seq<
    (u32, u32),
>
    decreases plan.len(),
{
    if plan.len() == 0 || lookups.len() == 0 {
        Seq::empty()
    } else {
        let prev = planned_writes(plan.drop_last(), lookups.drop_last());
        match (entry_proposer(plan.last()), lookups.last()) {
            (Some(id), Some(ifindex)) => prev.push((id, ifindex)),
            _ => prev,
        }
    }
}

/// Whether a plan entry is accepted and its interface lookup found an index.
pub open spec fn is_resolved(e: RedirectEntry<Seq<char>>, lookup: Option<u32>) -> bool {
    entry_proposer(e) is Some && lookup is Some
}

/// How many of the first `i` plan entries are accepted and resolved.
pub open spec fn resolved_before(
    plan: Seq<RedirectEntry<Seq<char>>>,
    lookups: Seq<Option<u32>>,
    i: int,
) -> nat
    decreases i,
{
    if i <= 0 {
        0
    } else {
        resolved_before(plan, lookups, i - 1) + (if is_resolved(plan[i - 1], lookups[i - 1]) {
            1nat
        } else {
            0nat
        })
    }
}

/// Counting resolved entries over a longer prefix never gives less.
proof fn lemma_resolved_before_monotone(
    plan: Seq<RedirectEntry<Seq<char>>>,
    lookups: Seq<Option<u32>>,
    i: int,
    j: int,
)
    requires
        0 <= i <= j,
    ensures
        resolved_before(plan, lookups, i) <= resolved_before(plan, lookups, j),
    decreases j - i,
{
    if i < j {
        lemma_resolved_before_monotone(plan, lookups, i, j - 1);
    }
}

/// The count over the first `i` entries only looks at those entries.
proof fn lemma_resolved_before_prefix(
    plan: Seq<RedirectEntry<Seq<char>>>,
    lookups: Seq<Option<u32>>,
    i: int,
)
    requires
        0 <= i < plan.len(),
        plan.len() == lookups.len(),
    ensures
        resolved_before(plan, lookups, i) == resolved_before(
            plan.drop_last(),
            lookups.drop_last(),
            i,
        ),
    decreases i,
{
    if i > 0 {
        lemma_resolved_before_prefix(plan, lookups, i - 1);
    }
}

/// The redirect map writes are one write per accepted entry whose interface
/// resolved, in plan order: the write for the `k`-th such entry (counting
/// from 0) is at position `k` and sets that entry's proposer to the resolved
/// index, and there are as many writes as such entries. Applied in order, a
/// later entry for the same proposer therefore overrides an earlier one.
pub proof fn lemma_writes_follow_resolved_entries(
    plan: Seq<RedirectEntry<Seq<char>>>,
    lookups: Seq<Option<u32>>,
)
    requires
        plan.len() == lookups.len(),
    ensures
        planned_writes(plan, lookups).len() == resolved_before(plan, lookups, plan.len() as int),
        forall|i: int|
            0 <= i < plan.len() && is_resolved(plan[i], lookups[i]) ==> planned_writes(
                plan,
                lookups,
            )[resolved_before(plan, lookups, i) as int] == (
                entry_proposer(plan[i])->0,
                lookups[i]->0,
            ),
    decreases plan.len(),
{
    if plan.len() > 0 {
        let n = plan.len() as int;
        let pd = plan.drop_last();
        let ld = lookups.drop_last();
        lemma_writes_follow_resolved_entries(pd, ld);
        lemma_resolved_before_prefix(plan, lookups, n - 1);
        let w = planned_writes(plan, lookups);
        let wd = planned_writes(pd, ld);
        assert forall|i: int|
            0 <= i < plan.len() && is_resolved(plan[i], lookups[i]) implies w[resolved_before(
                plan,
                lookups,
                i,
            ) as int] == (entry_proposer(plan[i])->0, lookups[i]->0) by {
            if i < n - 1 {
                lemma_resolved_before_prefix(plan, lookups, i);
                lemma_resolved_before_monotone(plan, lookups, i + 1, n - 1);
                assert(pd[i] == plan[i]);
                assert(ld[i] == lookups[i]);
            }
        }
    }
}

/// The writes to make into the redirect map, and their number, for `plan`
/// with interface lookups `lookups` (one per entry).
pub fn redirect_writes(plan: &[RedirectEntry<String>], lookups: &[Option<u32>]) -> (r: (
    Vec<(u32, u32)>,
    usize,
))
    requires
        plan@.len() == lookups@.len(),
    ensures
        r.0@ == planned_writes(entries_view(plan@), lookups@),
        r.1 == r.0@.len(),
{
    let mut writes: Vec<(u32, u32)> = Vec::new();
    let mut i: usize = 0;
    assert(entries_view(plan@).take(0) =~= Seq::<RedirectEntry<Seq<char>>>::empty());
    while i < plan.len()
        invariant
            i <= plan@.len(),
            plan@.len() == lookups@.len(),
            writes@ == planned_writes(entries_view(plan@).take(i as int), lookups@.take(i as int)),
        decreases plan@.len() - i,
    {
        let ghost pv = entries_view(plan@).take(i + 1);
        let ghost lv = lookups@.take(i + 1);
        assert(pv.drop_last() =~= entries_view(plan@).take(i as int));
        assert(lv.drop_last() =~= lookups@.take(i as int));
        assert(pv.last() == plan@[i as int]@);
        assert(lv.last() == lookups@[i as int]);
        let id = match &plan[i] {
            RedirectEntry::Auto { proposer_id, .. } => Some(*proposer_id),
            RedirectEntry::Explicit { proposer_id, .. } => Some(*proposer_id),
            RedirectEntry::Rejected { .. } => None,
        };
        match (id, lookups[i]) {
            (Some(id), Some(ifindex)) => {
                writes.push((id, ifindex));
            },
            _ => {},
        }
        i = i + 1;
    }
    assert(entries_view(plan@).take(i as int) =~= entries_view(plan@));
    assert(lookups@.take(i as int) =~= lookups@);
    let count = writes.len();
    (writes, count)
}

/// The sysfs file that holds the index of interface `iface`.
pub fn interface_index_path(iface: &str) -> (path: String)
    ensures
        path@ == "/sys/class/net/"@ + iface@ + "/ifindex"@,
{
    let mut path = String::from_str("/sys/class/net/");
    path.append(iface);
    path.append("/ifindex");
    path
}

/// The interface index held in the contents of a sysfs `ifindex` file: the
/// trimmed text read as a decimal `u32`.
pub fn parse_ifindex(content: &str) -> (r: Option<u32>)
    ensures
        r == spec_parse_u32(trim(content@)),
{
    parse_u32(trim_str(content))
}

} // verus!
