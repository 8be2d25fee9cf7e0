//! The session constellation: the open tabs, of which the newest is the
//! active one, each glowing in a colour.
use vstd::prelude::*;

verus! {

/// An RGB colour.
#[derive(Clone, Copy, Debug, PartialEq, Eq, Structural)]
pub struct Rgb {
    pub r: u8,
    pub g: u8,
    pub b: u8,
}

/// The muted sage a new tab glows in.
pub open spec fn sage() -> Rgb {
    Rgb { r: 212, g: 225, b: 209 }
}

/// The muted sage a new tab glows in.
pub fn sage_glow() -> (c: Rgb)
    ensures
        c == sage(),
{
    Rgb { r: 212, g: 225, b: 209 }
}

/// A tab of the constellation.
#[derive(Debug)]
pub struct Tab {
    pub id: i32,
    pub title: String,
    pub glow_color: Rgb,
    pub active: bool,
    pub pinned: bool,
}

/// A tab as plain values: id, title, colour, whether active, whether
/// pinned.
pub open spec fn tab_view(t: Tab) -> (i32, Seq<char>, Rgb, bool, bool) {
    (t.id, t.title@, t.glow_color, t.active, t.pinned)
}

/// The largest tab id, or `None` for no tabs.
pub open spec fn max_tab_id(tabs: Seq<Tab>) -> Option<int>
    decreases tabs.len(),
{
    if tabs.len() == 0 {
        None
    } else {
        match max_tab_id(tabs.drop_last()) {
            None => Some(tabs.last().id as int),
            Some(m) => Some(if tabs.last().id as int > m { tabs.last().id as int } else { m }),
        }
    }
}

/// The id of the next tab: one more than the largest id, 1 for the first.
pub open spec fn next_tab_id(tabs: Seq<Tab>) -> int {
    match max_tab_id(tabs) {
        Some(m) => m + 1,
        None => 1,
    }
}

/// `after` is `before` with a tab titled `title` added: every earlier tab
/// kept in place and made inactive, and at the end a new active, unpinned
/// tab glowing sage, whose id is the next one.
pub open spec fn tab_added(before: Seq<Tab>, title: Seq<char>, after: Seq<Tab>) -> bool {
    &&& after.len() == before.len() + 1
    &&& forall|i: int|
        0 <= i < before.len() ==> #[trigger] tab_view(after[i]) == (
            before[i].id,
            before[i].title@,
            before[i].glow_color,
            false,
            before[i].pinned,
        )
    &&& tab_view(after.last()) == (next_tab_id(before) as i32, title, sage(), true, false)
}

proof fn max_tab_id_bounds(tabs: Seq<Tab>)
    ensures
        tabs.len() == 0 <==> max_tab_id(tabs) is None,
        max_tab_id(tabs) matches Some(m) ==> i32::MIN <= m <= i32::MAX,
        max_tab_id(tabs) matches Some(m) ==> forall|i: int|
            0 <= i < tabs.len() ==> #[trigger] tabs[i].id <= m,
    decreases tabs.len(),
{
    if tabs.len() > 0 {
        let rest = tabs.drop_last();
        max_tab_id_bounds(rest);
        let m = max_tab_id(tabs)->0;
        assert forall|i: int| 0 <= i < tabs.len() implies #[trigger] tabs[i].id <= m by {
            if i < tabs.len() - 1 {
                assert(tabs[i] == rest[i]);
                assert(rest[i].id <= max_tab_id(rest)->0);
            }
        }
    }
}

/// The constellation with a tab titled `title` added: the others go
/// inactive, the new one is active, unpinned, glows sage and takes the
/// next id.
pub fn add_tab(tabs: &Vec<Tab>, title: String) -> (after: Vec<Tab>)
    requires
        next_tab_id(tabs@) <= i32::MAX,
    ensures
        tab_added(tabs@, title@, after@),
{
    let mut out: Vec<Tab> = Vec::new();
    let mut max: Option<i32> = None;
    let n = tabs.len();
    for i in 0..n
        invariant
            n == tabs.len(),
            out.len() == i,
            max == (match max_tab_id(tabs@.take(i as int)) {
                Some(m) => Some(m as i32),
                None => None::<i32>,
            }),
            forall|j: int|
                0 <= j < i ==> #[trigger] tab_view(out@[j]) == (
                    tabs@[j].id,
                    tabs@[j].title@,
                    tabs@[j].glow_color,
                    false,
                    tabs@[j].pinned,
                ),
    {
        proof {
            assert(tabs@.take(i + 1).drop_last() == tabs@.take(i as int));
            max_tab_id_bounds(tabs@.take(i as int));
            max_tab_id_bounds(tabs@.take(i + 1));
        }
        let t = &tabs[i];
        max = match max {
            None => Some(t.id),
            Some(m) => Some(if t.id > m { t.id } else { m }),
        };
        out.push(
            Tab {
                id: t.id,
                title: t.title.clone(),
                glow_color: t.glow_color,
                active: false,
                pinned: t.pinned,
            },
        );
    }
    proof {
        assert(tabs@.take(n as int) == tabs@);
        max_tab_id_bounds(tabs@);
    }
    let id = match max {
        Some(m) => m + 1,
        None => 1,
    };
    out.push(Tab { id, title, glow_color: sage_glow(), active: true, pinned: false });
    out
}

/// Every tab has an id of its own.
pub open spec fn distinct_ids(tabs: Seq<Tab>) -> bool {
    forall|i: int, j: int| 0 <= i < j < tabs.len() ==> tabs[i].id != tabs[j].id
}

/// Adding a tab keeps the ids distinct and leaves exactly one active tab:
/// the new one, at the end.
pub proof fn add_tab_keeps_ids_distinct(before: Seq<Tab>, title: Seq<char>, after: Seq<Tab>)
    requires
        distinct_ids(before),
        next_tab_id(before) <= i32::MAX,
        tab_added(before, title, after),
    ensures
        distinct_ids(after),
        after.last().active,
        forall|i: int| 0 <= i < after.len() - 1 ==> !(#[trigger] after[i]).active,
{
    max_tab_id_bounds(before);
    assert forall|i: int| 0 <= i < after.len() - 1 implies !(#[trigger] after[i]).active by {
        assert(tab_view(after[i]).3 == false);
    }
    assert forall|i: int, j: int| 0 <= i < j < after.len() implies after[i].id != after[j].id by {
        assert(tab_view(after[i]).0 == before[i].id);
        if j < before.len() {
            assert(tab_view(after[j]).0 == before[j].id);
        } else {
            assert(tab_view(after.last()).0 == next_tab_id(before) as i32);
            assert(before[i].id <= max_tab_id(before)->0);
        }
    }
}

/// The constellation with every active tab glowing in `color`.
pub fn tint_active(tabs: &Vec<Tab>, color: Rgb) -> (after: Vec<Tab>)
    ensures
        after@.len() == tabs@.len(),
        forall|i: int|
            0 <= i < tabs@.len() ==> #[trigger] tab_view(after@[i]) == (
                tabs@[i].id,
                tabs@[i].title@,
                if tabs@[i].active {
                    color
                } else {
                    tabs@[i].glow_color
                },
                tabs@[i].active,
                tabs@[i].pinned,
            ),
{
    let mut out: Vec<Tab> = Vec::new();
    let n = tabs.len();
    for i in 0..n
        invariant
            n == tabs.len(),
            out.len() == i,
            forall|j: int|
                0 <= j < i ==> #[trigger] tab_view(out@[j]) == (
                    tabs@[j].id,
                    tabs@[j].title@,
                    if tabs@[j].active {
                        color
                    } else {
                        tabs@[j].glow_color
                    },
                    tabs@[j].active,
                    tabs@[j].pinned,
                ),
    {
        let t = &tabs[i];
        out.push(
            Tab {
                id: t.id,
                title: t.title.clone(),
                glow_color: if t.active {
                    color
                } else {
                    t.glow_color
                },
                active: t.active,
                pinned: t.pinned,
            },
        );
    }
    out
}

} // verus!
