//! Which terminal pane the viewer reads from.

use vstd::prelude::*;

verus! {

/// What the choice of a source pane reads of a pane.
#[derive(Clone, Copy)]
pub struct PaneRecord {
    pub id: u32,
    pub is_plugin: bool,
    pub is_focused: bool,
    pub is_floating: bool,
    pub is_suppressed: bool,
}

/// The panes of one tab, with the tab's position.
pub struct TabPanes {
    pub position: usize,
    pub panes: Vec<PaneRecord>,
}

/// The panes of the session, tab by tab.
pub struct PaneManifest {
    pub tabs: Vec<TabPanes>,
}

/// The index of the first of the first `n` tabs that has position `position`.
pub open spec fn find_tab(tabs: Seq<TabPanes>, position: usize, n: int) -> Option<int>
    decreases n,
{
    if n <= 0 {
        None
    } else {
        match find_tab(tabs, position, n - 1) {
            Some(i) => Some(i),
            None => if tabs[n - 1].position == position {
                Some(n - 1)
            } else {
                None
            },
        }
    }
}

/// The panes of the first `n` tabs, tab after tab.
pub open spec fn panes_of(tabs: Seq<TabPanes>, n: int) -> Seq<PaneRecord>
    decreases n,
{
    if n <= 0 {
        Seq::empty()
    } else {
        panes_of(tabs, n - 1) + tabs[n - 1].panes@
    }
}

/// The panes considered: those of the active tab when it is known and
/// present, else those of all tabs.
pub open spec fn scope(tabs: Seq<TabPanes>, active_tab: Option<usize>) -> Seq<PaneRecord> {
    match active_tab {
        Some(position) => match find_tab(tabs, position, tabs.len() as int) {
            Some(i) => tabs[i].panes@,
            None => panes_of(tabs, tabs.len() as int),
        },
        None => panes_of(tabs, tabs.len() as int),
    }
}

/// The last focused non-plugin pane.
pub open spec fn last_focused(s: Seq<PaneRecord>) -> Option<u32>
    decreases s.len(),
{
    if s.len() == 0 {
        None
    } else if !s.last().is_plugin && s.last().is_focused {
        Some(s.last().id)
    } else {
        last_focused(s.drop_last())
    }
}

/// Whether a pane may be tiled in the third tier: tiled and not suppressed.
pub open spec fn is_tiled(p: PaneRecord) -> bool {
    !p.is_floating && !p.is_suppressed
}

/// The first non-plugin pane that is tiled and not suppressed.
pub open spec fn first_tiled(s: Seq<PaneRecord>) -> Option<u32>
    decreases s.len(),
{
    if s.len() == 0 {
        None
    } else {
        match first_tiled(s.drop_last()) {
            Some(id) => Some(id),
            None => if !s.last().is_plugin && is_tiled(s.last()) {
                Some(s.last().id)
            } else {
                None
            },
        }
    }
}

/// The first non-plugin pane.
pub open spec fn first_terminal(s: Seq<PaneRecord>) -> Option<u32>
    decreases s.len(),
{
    if s.len() == 0 {
        None
    } else {
        match first_terminal(s.drop_last()) {
            Some(id) => Some(id),
            None => if !s.last().is_plugin {
                Some(s.last().id)
            } else {
                None
            },
        }
    }
}

/// Whether some non-plugin pane has id `id`.
pub open spec fn has_terminal(s: Seq<PaneRecord>, id: u32) -> bool {
    exists|i: int| 0 <= i < s.len() && !s[i].is_plugin && s[i].id == id
}

pub open spec fn or_else(a: Option<u32>, b: Option<u32>) -> Option<u32> {
    match a {
        Some(x) => Some(x),
        None => b,
    }
}

/// The four tiers in order: the focused non-plugin pane; the hint, where it
/// names a non-plugin pane here; the first tiled, non-suppressed non-plugin
/// pane; any non-plugin pane.
pub open spec fn picked(s: Seq<PaneRecord>, hint: Option<u32>) -> Option<u32> {
    let hinted = match hint {
        Some(h) => if has_terminal(s, h) {
            Some(h)
        } else {
            None
        },
        None => None,
    };
    or_else(last_focused(s), or_else(hinted, or_else(first_tiled(s), first_terminal(s))))
}

proof fn lemma_panes_of_step(tabs: Seq<TabPanes>, n: int)
    requires
        0 <= n < tabs.len(),
    ensures
        panes_of(tabs, n + 1) == panes_of(tabs, n) + tabs[n].panes@,
{
}

proof fn lemma_tiers_name_terminals(s: Seq<PaneRecord>)
    ensures
        last_focused(s) matches Some(id) ==> has_terminal(s, id),
        first_tiled(s) matches Some(id) ==> has_terminal(s, id),
        first_terminal(s) matches Some(id) ==> has_terminal(s, id),
        first_terminal(s) is None <==> (forall|i: int| 0 <= i < s.len() ==> #[trigger] s[i].is_plugin),
    decreases s.len(),
{
    if s.len() > 0 {
        let t = s.drop_last();
        lemma_tiers_name_terminals(t);
        assert forall|id: u32| has_terminal(t, id) implies has_terminal(s, id) by {
            let j = choose|j: int| 0 <= j < t.len() && !t[j].is_plugin && t[j].id == id;
            assert(s[j] == t[j]);
        }
        assert(s[s.len() - 1] == s.last());
        if first_terminal(s) is None {
            assert forall|i: int| 0 <= i < s.len() implies #[trigger] s[i].is_plugin by {
                if i < s.len() - 1 {
                    assert(s[i] == t[i]);
                }
            }
        }
        if forall|i: int| 0 <= i < s.len() ==> #[trigger] s[i].is_plugin {
            assert forall|i: int| 0 <= i < t.len() implies #[trigger] t[i].is_plugin by {
                assert(s[i] == t[i]);
            }
        }
    }
}

/// The source chosen is always a non-plugin pane of the panes considered, and
/// there is one exactly when some pane considered is not a plugin.
pub proof fn lemma_pick_is_terminal_in_scope(s: Seq<PaneRecord>, hint: Option<u32>)
    ensures
        picked(s, hint) matches Some(id) ==> has_terminal(s, id),
        picked(s, hint) is None <==> (forall|i: int| 0 <= i < s.len() ==> #[trigger] s[i].is_plugin),
{
    lemma_tiers_name_terminals(s);
    if picked(s, hint) is None {
        assert(first_terminal(s) is None);
    }
    if forall|i: int| 0 <= i < s.len() ==> #[trigger] s[i].is_plugin {
        assert(last_focused(s) is None);
        if let Some(h) = hint {
            assert(!has_terminal(s, h));
        }
        assert(first_tiled(s) is None);
    }
}

/// A focused non-plugin pane always wins.
pub proof fn lemma_focused_pane_wins(s: Seq<PaneRecord>, hint: Option<u32>)
    requires
        exists|i: int| 0 <= i < s.len() && !s[i].is_plugin && s[i].is_focused,
    ensures
        picked(s, hint) == last_focused(s),
        last_focused(s) is Some,
{
    lemma_focused_exists(s);
}

proof fn lemma_focused_exists(s: Seq<PaneRecord>)
    requires
        exists|i: int| 0 <= i < s.len() && !s[i].is_plugin && s[i].is_focused,
    ensures
        last_focused(s) is Some,
    decreases s.len(),
{
    let t = s.drop_last();
    if !(!s.last().is_plugin && s.last().is_focused) {
        let i = choose|i: int| 0 <= i < s.len() && !s[i].is_plugin && s[i].is_focused;
        assert(i != s.len() - 1);
        assert(t[i] == s[i]);
        lemma_focused_exists(t);
    }
}

/// Without a focused non-plugin pane, a hint that names a non-plugin pane
/// here wins; one that names no such pane is ignored.
pub proof fn lemma_hint_tier(s: Seq<PaneRecord>, h: u32)
    requires
        last_focused(s) is None,
    ensures
        has_terminal(s, h) ==> picked(s, Some(h)) == Some(h),
        !has_terminal(s, h) ==> picked(s, Some(h)) == picked(s, None),
{
}

/// The panes that the choice considers.
pub fn tab_scope(manifest: &PaneManifest, active_tab: Option<usize>) -> (r: Vec<PaneRecord>)
    ensures
        r@ == scope(manifest.tabs@, active_tab),
{
    let tabs = &manifest.tabs;
    if let Some(position) = active_tab {
        let mut t: usize = 0;
        while t < tabs.len()
            invariant
                t <= tabs@.len(),
                tabs@ == manifest.tabs@,
                active_tab == Some(position),
                find_tab(tabs@, position, t as int) is None,
            decreases tabs@.len() - t,
        {
            if tabs[t].position == position {
                assert(find_tab(tabs@, position, t + 1) == Some(t as int));
                assert(find_tab(tabs@, position, tabs@.len() as int) == Some(t as int)) by {
                    lemma_find_tab_stays(tabs@, position, t as int + 1, tabs@.len() as int);
                }
                assert(scope(tabs@, active_tab) == tabs@[t as int].panes@);
                let r = copy_panes(&tabs[t].panes);
                return r;
            }
            t = t + 1;
        }
    }
    let mut all: Vec<PaneRecord> = Vec::new();
    let mut t: usize = 0;
    while t < tabs.len()
        invariant
            t <= tabs@.len(),
            tabs@ == manifest.tabs@,
            all@ == panes_of(tabs@, t as int),
        decreases tabs@.len() - t,
    {
        let panes = &tabs[t].panes;
        let mut i: usize = 0;
        while i < panes.len()
            invariant
                t < tabs@.len(),
                panes@ == tabs@[t as int].panes@,
                i <= panes@.len(),
                all@ == panes_of(tabs@, t as int) + panes@.subrange(0, i as int),
            decreases panes@.len() - i,
        {
            all.push(panes[i]);
            i = i + 1;
            assert(all@ =~= panes_of(tabs@, t as int) + panes@.subrange(0, i as int));
        }
        assert(panes@.subrange(0, i as int) =~= panes@);
        proof {
            lemma_panes_of_step(tabs@, t as int);
        }
        t = t + 1;
    }
    all
}

proof fn lemma_find_tab_stays(tabs: Seq<TabPanes>, position: usize, k: int, n: int)
    requires
        1 <= k <= n,
        find_tab(tabs, position, k) is Some,
    ensures
        find_tab(tabs, position, n) == find_tab(tabs, position, k),
    decreases n - k,
{
    if k < n {
        lemma_find_tab_stays(tabs, position, k, n - 1);
    }
}

fn copy_panes(panes: &Vec<PaneRecord>) -> (r: Vec<PaneRecord>)
    ensures
        r@ == panes@,
{
    let mut r: Vec<PaneRecord> = Vec::new();
    let mut i: usize = 0;
    while i < panes.len()
        invariant
            i <= panes@.len(),
            r@ == panes@.subrange(0, i as int),
        decreases panes@.len() - i,
    {
        r.push(panes[i]);
        i = i + 1;
        assert(r@ =~= panes@.subrange(0, i as int));
    }
    assert(r@ =~= panes@);
    r
}

/// The id of the last focused non-plugin pane among `panes`.
pub fn focused_terminal(panes: &Vec<PaneRecord>) -> (r: Option<u32>)
    ensures
        r == last_focused(panes@),
{
    let mut found: Option<u32> = None;
    let mut i: usize = 0;
    while i < panes.len()
        invariant
            i <= panes@.len(),
            found == last_focused(panes@.subrange(0, i as int)),
        decreases panes@.len() - i,
    {
        let p = panes[i];
        assert(panes@.subrange(0, i + 1).drop_last() =~= panes@.subrange(0, i as int));
        if !p.is_plugin && p.is_focused {
            found = Some(p.id);
        }
        i = i + 1;
    }
    assert(panes@.subrange(0, i as int) =~= panes@);
    found
}

/// Returns the terminal pane id the viewer should read from.
///
/// Four-tier preference among the panes of the active tab (all tabs when it
/// is unknown or absent):
///   1. the focused non-plugin pane (the last one, should there be several);
///   2. `hint`, the last focused non-plugin pane seen in earlier updates,
///      where it is a non-plugin pane here;
///   3. the first tiled, non-suppressed non-plugin pane;
///   4. any non-plugin pane.
pub fn pick(manifest: &PaneManifest, hint: Option<u32>, active_tab: Option<usize>) -> (r: Option<u32>)
    ensures
        r == picked(scope(manifest.tabs@, active_tab), hint),
{
    let panes = tab_scope(manifest, active_tab);
    let ghost s = panes@;
    let mut focused_non_plugin: Option<u32> = None;
    let mut hint_exists = false;
    let mut first_tiled_id: Option<u32> = None;
    let mut first_any: Option<u32> = None;
    let mut i: usize = 0;
    while i < panes.len()
        invariant
            s == panes@,
            i <= s.len(),
            focused_non_plugin == last_focused(s.subrange(0, i as int)),
            first_tiled_id == first_tiled(s.subrange(0, i as int)),
            first_any == first_terminal(s.subrange(0, i as int)),
            hint_exists == (hint is Some && has_terminal(s.subrange(0, i as int), hint->0)),
        decreases s.len() - i,
    {
        let pane = panes[i];
        let ghost prefix = s.subrange(0, i as int);
        let ghost next = s.subrange(0, i + 1);
        assert(next.drop_last() =~= prefix);
        assert(next.last() == pane);
        if !pane.is_plugin {
            if pane.is_focused {
                focused_non_plugin = Some(pane.id);
            }
            if hint == Some(pane.id) {
                hint_exists = true;
                assert(next[i as int] == pane);
            }
            if first_any.is_none() {
                first_any = Some(pane.id);
            }
            if first_tiled_id.is_none() && !pane.is_floating && !pane.is_suppressed {
                first_tiled_id = Some(pane.id);
            }
        }
        proof {
            if hint is Some {
                if has_terminal(next, hint->0) && !(hint == Some(pane.id) && !pane.is_plugin) {
                    let j = choose|j: int| 0 <= j < next.len() && !next[j].is_plugin && next[j].id == hint->0;
                    assert(j < i);
                    assert(prefix[j] == next[j]);
                }
                if has_terminal(prefix, hint->0) {
                    let j = choose|j: int| 0 <= j < prefix.len() && !prefix[j].is_plugin && prefix[j].id == hint->0;
                    assert(next[j] == prefix[j]);
                }
            }
        }
        i = i + 1;
    }
    assert(s.subrange(0, i as int) =~= s);
    let hinted = if hint_exists {
        hint
    } else {
        None
    };
    if focused_non_plugin.is_some() {
        focused_non_plugin
    } else if hinted.is_some() {
        hinted
    } else if first_tiled_id.is_some() {
        first_tiled_id
    } else {
        first_any
    }
}

} // verus!
