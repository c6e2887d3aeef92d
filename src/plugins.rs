//! Plugin definitions, roles and the order in which the pre-process phase
//! runs them.
use vstd::prelude::*;

pub mod assets;
pub mod data;
pub mod handlebars;
pub mod markdown;

verus! {

/// A plugin's place in the pre-process order.
#[derive(Debug, Clone, Copy, PartialEq, Eq, Structural)]
pub enum PluginRole {
    LoadContext,
    Prep,
    Transform,
    Custom,
}

/// Which of the four lifecycle behaviours a plugin carries.
#[derive(Debug, Clone, Copy, PartialEq, Eq, Structural)]
pub enum PluginKind {
    /// Copies assets and bundles stylesheets and scripts after the build.
    Assets,
    /// Merges the data directory's JSON files into the context.
    Data,
    /// Renders template files before the build and removes the renders after.
    Templates,
    /// Turns Markdown files into HTML.
    Markdown,
}

/// One registered plugin.
#[derive(Debug)]
pub struct PluginDefinition {
    pub name: String,
    pub role: PluginRole,
    pub kind: PluginKind,
}

pub open spec fn role_rank(r: PluginRole) -> int {
    match r {
        PluginRole::LoadContext => 0,
        PluginRole::Prep => 1,
        PluginRole::Transform => 2,
        PluginRole::Custom => 3,
    }
}

/// Positions below `n` whose plugin has rank `rank`, in registration order.
pub open spec fn positions_of_rank(plugins: Seq<PluginDefinition>, rank: int, n: int) -> Seq<usize>
    decreases n,
{
    if n <= 0 {
        Seq::empty()
    } else {
        let s = positions_of_rank(plugins, rank, n - 1);
        if role_rank(plugins[n - 1].role) == rank {
            s.push((n - 1) as usize)
        } else {
            s
        }
    }
}

/// Positions of the plugins whose rank is below `rank`, by rank and then by
/// registration order.
pub open spec fn positions_below_rank(plugins: Seq<PluginDefinition>, rank: int) -> Seq<usize>
    decreases rank,
{
    if rank <= 0 {
        Seq::empty()
    } else {
        positions_below_rank(plugins, rank - 1) + positions_of_rank(plugins, rank - 1, plugins.len() as int)
    }
}

/// The pre-process order: LoadContext, then Prep, then Transform, then
/// Custom; plugins of one role in the order they were registered.
pub open spec fn execution_order(plugins: Seq<PluginDefinition>) -> Seq<usize> {
    positions_below_rank(plugins, 4)
}

/// `p` stands somewhere in `s`.
pub open spec fn lists(s: Seq<usize>, p: int) -> bool {
    exists|i: int| 0 <= i < s.len() && s[i] == p
}

/// Plugin `a` runs before plugin `b`: a lower role rank, or the same rank
/// and an earlier registration.
pub open spec fn runs_before(plugins: Seq<PluginDefinition>, a: int, b: int) -> bool {
    role_rank(plugins[a].role) < role_rank(plugins[b].role) || (role_rank(plugins[a].role) == role_rank(
        plugins[b].role,
    ) && a < b)
}

pub proof fn lemma_positions_of_rank(plugins: Seq<PluginDefinition>, rank: int, n: int)
    requires
        n <= plugins.len() <= usize::MAX,
    ensures
        forall|i: int| #![auto] 0 <= i < positions_of_rank(plugins, rank, n).len() ==> {
            &&& positions_of_rank(plugins, rank, n)[i] < n
            &&& role_rank(plugins[positions_of_rank(plugins, rank, n)[i] as int].role) == rank
        },
        forall|i: int, j: int| 0 <= i < j < positions_of_rank(plugins, rank, n).len()
            ==> positions_of_rank(plugins, rank, n)[i] < positions_of_rank(plugins, rank, n)[j],
        forall|p: int| #![trigger plugins[p]] 0 <= p < n && role_rank(plugins[p].role) == rank ==> exists|i: int|
            0 <= i < positions_of_rank(plugins, rank, n).len() && positions_of_rank(plugins, rank, n)[i] == p,
    decreases n,
{
    if n > 0 {
        lemma_positions_of_rank(plugins, rank, n - 1);
        let s = positions_of_rank(plugins, rank, n - 1);
        if role_rank(plugins[n - 1].role) == rank {
            let t = s.push((n - 1) as usize);
            assert(t[s.len() as int] == n - 1);
            assert forall|p: int| #![trigger plugins[p]] 0 <= p < n && role_rank(plugins[p].role) == rank implies exists|i: int|
                0 <= i < t.len() && t[i] == p by {
                if p == n - 1 {
                    assert(t[s.len() as int] == p);
                } else {
                    let i = choose|i: int| 0 <= i < s.len() && s[i] == p;
                    assert(t[i] == p);
                }
            }
        }
    }
}

/// Rank order, registration order within a rank, and every plugin of a rank
/// below `k` listed.
pub proof fn lemma_positions_below_rank(plugins: Seq<PluginDefinition>, k: int)
    requires
        k <= 4,
        plugins.len() <= usize::MAX,
    ensures
        forall|i: int| #![auto] 0 <= i < positions_below_rank(plugins, k).len() ==> {
            &&& positions_below_rank(plugins, k)[i] < plugins.len()
            &&& role_rank(plugins[positions_below_rank(plugins, k)[i] as int].role) < k
        },
        forall|i: int, j: int| 0 <= i < j < positions_below_rank(plugins, k).len() ==> runs_before(
            plugins,
            #[trigger] positions_below_rank(plugins, k)[i] as int,
            #[trigger] positions_below_rank(plugins, k)[j] as int,
        ),
        forall|p: int| #![trigger plugins[p]] 0 <= p < plugins.len() && role_rank(plugins[p].role) < k ==> exists|i: int|
            0 <= i < positions_below_rank(plugins, k).len() && positions_below_rank(plugins, k)[i] == p,
    decreases k,
{
    if k > 0 {
        lemma_positions_below_rank(plugins, k - 1);
        lemma_positions_of_rank(plugins, k - 1, plugins.len() as int);
        let b = positions_below_rank(plugins, k - 1);
        let a = positions_of_rank(plugins, k - 1, plugins.len() as int);
        let s = b + a;
        assert(s == positions_below_rank(plugins, k));
        assert forall|i: int, j: int| 0 <= i < j < s.len() implies runs_before(
            plugins,
            #[trigger] s[i] as int,
            #[trigger] s[j] as int,
        ) by {
            if j < b.len() {
            } else if i < b.len() {
                assert(s[j] == a[j - b.len()]);
            } else {
                assert(s[i] == a[i - b.len()]);
                assert(s[j] == a[j - b.len()]);
            }
        }
        assert forall|p: int| #![trigger plugins[p]] 0 <= p < plugins.len() && role_rank(plugins[p].role) < k implies exists|i: int|
            0 <= i < s.len() && s[i] == p by {
            if role_rank(plugins[p].role) < k - 1 {
                let i = choose|i: int| 0 <= i < b.len() && b[i] == p;
                assert(s[i] == p);
            } else {
                let i = choose|i: int| 0 <= i < a.len() && a[i] == p;
                assert(s[b.len() + i] == p);
            }
        }
        assert forall|i: int| #![auto] 0 <= i < s.len() implies {
            &&& s[i] < plugins.len()
            &&& role_rank(plugins[s[i] as int].role) < k
        } by {
            if i >= b.len() {
                assert(s[i] == a[i - b.len()]);
            }
        }
    }
}

/// The pre-process order is a total order on the registered plugins: it
/// lists every one of them, by role rank, and plugins of one role in the
/// order they were registered; so it is the same on every run.
pub proof fn lemma_execution_order(plugins: Seq<PluginDefinition>)
    requires
        plugins.len() <= usize::MAX,
    ensures
        forall|i: int| #![auto] 0 <= i < execution_order(plugins).len() ==> execution_order(plugins)[i]
            < plugins.len(),
        forall|i: int, j: int| 0 <= i < j < execution_order(plugins).len() ==> runs_before(
            plugins,
            #[trigger] execution_order(plugins)[i] as int,
            #[trigger] execution_order(plugins)[j] as int,
        ),
        forall|p: int| 0 <= p < plugins.len() ==> #[trigger] lists(execution_order(plugins), p),
{
    lemma_positions_below_rank(plugins, 4);
    assert forall|p: int| 0 <= p < plugins.len() implies #[trigger] lists(execution_order(plugins), p) by {
        assert(role_rank(plugins[p].role) < 4);
        let s = positions_below_rank(plugins, 4);
        assert(exists|i: int| 0 <= i < s.len() && s[i] == p);
        let i = choose|i: int| 0 <= i < s.len() && s[i] == p;
        assert(execution_order(plugins)[i] == p);
    }
}

/// The first position at or after `k` whose plugin is named `name`.
pub open spec fn position_of_name_from(plugins: Seq<PluginDefinition>, name: Seq<char>, k: int) -> Option<int>
    decreases plugins.len() - k,
{
    if k < 0 || k >= plugins.len() {
        None
    } else if plugins[k].name@ == name {
        Some(k)
    } else {
        position_of_name_from(plugins, name, k + 1)
    }
}

/// The first position whose plugin is named `name`.
pub open spec fn position_of_name(plugins: Seq<PluginDefinition>, name: Seq<char>) -> Option<int> {
    position_of_name_from(plugins, name, 0)
}

pub proof fn lemma_position_of_name(plugins: Seq<PluginDefinition>, name: Seq<char>, k: int)
    ensures
        position_of_name_from(plugins, name, k) matches Some(i) ==> k <= i < plugins.len()
            && plugins[i].name@ == name,
    decreases plugins.len() - k,
{
    if k < 0 || k >= plugins.len() {
    } else if plugins[k].name@ == name {
    } else {
        lemma_position_of_name(plugins, name, k + 1);
    }
}

/// The rank of a role.
pub fn rank(role: PluginRole) -> (r: u8)
    ensures
        r as int == role_rank(role),
{
    match role {
        PluginRole::LoadContext => 0,
        PluginRole::Prep => 1,
        PluginRole::Transform => 2,
        PluginRole::Custom => 3,
    }
}

/// The positions of `plugins` in pre-process order.
pub fn sorted_positions(plugins: &Vec<PluginDefinition>) -> (r: Vec<usize>)
    ensures
        r@ == execution_order(plugins@),
{
    let n = plugins.len();
    let mut r: Vec<usize> = Vec::new();
    let mut k: u8 = 0;
    while k < 4
        invariant
            k <= 4,
            n == plugins@.len(),
            r@ == positions_below_rank(plugins@, k as int),
        decreases 4 - k,
    {
        let ghost base = r@;
        let mut j: usize = 0;
        while j < n
            invariant
                j <= n,
                k < 4,
                n == plugins@.len(),
                base == positions_below_rank(plugins@, k as int),
                r@ == base + positions_of_rank(plugins@, k as int, j as int),
            decreases n - j,
        {
            if rank(plugins[j].role) == k {
                r.push(j);
            }
            proof {
                assert(r@ =~= base + positions_of_rank(plugins@, k as int, j + 1));
            }
            j = j + 1;
        }
        k = k + 1;
    }
    r
}

/// The first position whose plugin is named `name`, found by a scan.
pub fn find_plugin(plugins: &Vec<PluginDefinition>, name: &String) -> (r: Option<usize>)
    ensures
        match position_of_name(plugins@, name@) {
            Some(i) => r matches Some(j) && j == i,
            None => r.is_none(),
        },
{
    let mut i: usize = 0;
    while i < plugins.len()
        invariant
            i <= plugins@.len(),
            position_of_name(plugins@, name@) == position_of_name_from(plugins@, name@, i as int),
        decreases plugins@.len() - i,
    {
        if plugins[i].name == *name {
            return Some(i);
        }
        i = i + 1;
    }
    None
}

} // verus!
