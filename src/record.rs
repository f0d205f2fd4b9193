use vstd::prelude::*;

verus! {

/// The four lists of a standup.
#[derive(Clone, Copy, Debug, PartialEq, Eq, Structural)]
pub enum Category {
    Did,
    Doing,
    Blocker,
    Sidebar,
}

/// One append, kept so that it can be undone.
#[derive(Clone, Debug)]
pub struct HistoryEntry {
    pub category: Category,
    pub item: String,
}

/// The record: four ordered lists of items and the appends, oldest first.
#[derive(Clone, Debug)]
pub struct Standup {
    pub did: Vec<String>,
    pub doing: Vec<String>,
    pub blockers: Vec<String>,
    pub sidebars: Vec<String>,
    pub history: Vec<HistoryEntry>,
}

/// The mathematical value of a record.
pub struct StandupView {
    pub did: Seq<Seq<char>>,
    pub doing: Seq<Seq<char>>,
    pub blockers: Seq<Seq<char>>,
    pub sidebars: Seq<Seq<char>>,
    pub history: Seq<(Category, Seq<char>)>,
}

/// Position of the last occurrence of `x` in `s`, or -1 when there is none.
pub open spec fn last_pos(s: Seq<Seq<char>>, x: Seq<char>) -> int
    decreases s.len(),
{
    if s.len() == 0 {
        -1
    } else if s.last() == x {
        s.len() - 1
    } else {
        last_pos(s.drop_last(), x)
    }
}

/// `s` without the last occurrence of `x`; `s` itself when `x` does not occur.
pub open spec fn remove_last(s: Seq<Seq<char>>, x: Seq<char>) -> Seq<Seq<char>> {
    if last_pos(s, x) < 0 {
        s
    } else {
        s.remove(last_pos(s, x))
    }
}

impl StandupView {
    pub open spec fn empty() -> StandupView {
        StandupView {
            did: Seq::empty(),
            doing: Seq::empty(),
            blockers: Seq::empty(),
            sidebars: Seq::empty(),
            history: Seq::empty(),
        }
    }

    pub open spec fn list(self, c: Category) -> Seq<Seq<char>> {
        match c {
            Category::Did => self.did,
            Category::Doing => self.doing,
            Category::Blocker => self.blockers,
            Category::Sidebar => self.sidebars,
        }
    }

    /// The record with list `c` replaced by `l`.
    pub open spec fn with_list(self, c: Category, l: Seq<Seq<char>>) -> StandupView {
        match c {
            Category::Did => StandupView { did: l, ..self },
            Category::Doing => StandupView { doing: l, ..self },
            Category::Blocker => StandupView { blockers: l, ..self },
            Category::Sidebar => StandupView { sidebars: l, ..self },
        }
    }

    /// `x` added at the end of list `c`, and the append recorded.
    pub open spec fn append(self, c: Category, x: Seq<char>) -> StandupView {
        let r = self.with_list(c, self.list(c).push(x));
        StandupView { history: self.history.push((c, x)), ..r }
    }

    /// The last append dropped from the history and its item, at its last
    /// occurrence, from the list it names; no change when the history is empty.
    pub open spec fn undo(self) -> StandupView {
        if self.history.len() == 0 {
            self
        } else {
            let (c, x) = self.history.last();
            let r = self.with_list(c, remove_last(self.list(c), x));
            StandupView { history: self.history.drop_last(), ..r }
        }
    }
}

impl View for HistoryEntry {
    type V = (Category, Seq<char>);

    open spec fn view(&self) -> (Category, Seq<char>) {
        (self.category, self.item@)
    }
}

pub open spec fn strings_view(v: Seq<String>) -> Seq<Seq<char>> {
    v.map_values(|s: String| s@)
}

impl View for Standup {
    type V = StandupView;

    open spec fn view(&self) -> StandupView {
        StandupView {
            did: strings_view(self.did@),
            doing: strings_view(self.doing@),
            blockers: strings_view(self.blockers@),
            sidebars: strings_view(self.sidebars@),
            history: self.history@.map_values(|e: HistoryEntry| e@),
        }
    }
}

/// `s` equals the string literal `lit`, character by character.
pub fn str_is(s: &str, lit: &str) -> (r: bool)
    ensures
        r == (s@ == lit@),
{
    let a = String::from_str(s);
    let b = String::from_str(lit);
    a == b
}

/// The list that a command word names: `did`/`di`, `doing`/`do`,
/// `blocker`/`bl`, `sidebar`/`sb`; no list for any other word.
pub open spec fn alias_of(word: Seq<char>) -> Option<Category> {
    if word == "did"@ || word == "di"@ {
        Some(Category::Did)
    } else if word == "doing"@ || word == "do"@ {
        Some(Category::Doing)
    } else if word == "blocker"@ || word == "bl"@ {
        Some(Category::Blocker)
    } else if word == "sidebar"@ || word == "sb"@ {
        Some(Category::Sidebar)
    } else {
        None
    }
}

impl Category {
    /// The list that a command word names.
    pub fn from_alias(word: &str) -> (r: Option<Category>)
        ensures
            r == alias_of(word@),
    {
        if str_is(word, "did") || str_is(word, "di") {
            Some(Category::Did)
        } else if str_is(word, "doing") || str_is(word, "do") {
            Some(Category::Doing)
        } else if str_is(word, "blocker") || str_is(word, "bl") {
            Some(Category::Blocker)
        } else if str_is(word, "sidebar") || str_is(word, "sb") {
            Some(Category::Sidebar)
        } else {
            None
        }
    }
}


/// The last occurrence of `x` is at `i` when `s[i]` is `x` and nothing after it is.
proof fn lemma_last_pos_at(s: Seq<Seq<char>>, x: Seq<char>, i: int)
    requires
        0 <= i < s.len(),
        s[i] == x,
        forall|j: int| i < j < s.len() ==> s[j] != x,
    ensures
        last_pos(s, x) == i,
    decreases s.len(),
{
    if i < s.len() - 1 {
        assert(s.last() != x);
        lemma_last_pos_at(s.drop_last(), x, i);
    }
}

/// `x` has no last occurrence when it does not occur.
proof fn lemma_last_pos_none(s: Seq<Seq<char>>, x: Seq<char>)
    requires
        forall|j: int| 0 <= j < s.len() ==> s[j] != x,
    ensures
        last_pos(s, x) == -1,
    decreases s.len(),
{
    if s.len() > 0 {
        assert(s.last() != x);
        lemma_last_pos_none(s.drop_last(), x);
    }
}

/// Removes the last occurrence of `x` from `v`, if any.
fn remove_last_occurrence(v: &mut Vec<String>, x: &String)
    ensures
        strings_view(final(v)@) == remove_last(strings_view(old(v)@), x@),
{
    let ghost s = strings_view(v@);
    let mut i: usize = v.len();
    while i > 0
        invariant
            i <= v.len(),
            v@ == old(v)@,
            s == strings_view(v@),
            forall|j: int| i <= j < v.len() ==> s[j] != x@,
        decreases i,
    {
        if v[i - 1] == *x {
            proof {
                lemma_last_pos_at(s, x@, i - 1);
            }
            v.remove(i - 1);
            assert(strings_view(v@) =~= s.remove(i - 1));
            return;
        }
        i = i - 1;
    }
    proof {
        lemma_last_pos_none(s, x@);
    }
}

impl Standup {
    /// A record with four empty lists and an empty history.
    pub fn new() -> (r: Standup)
        ensures
            r@ == StandupView::empty(),
    {
        let r = Standup {
            did: Vec::new(),
            doing: Vec::new(),
            blockers: Vec::new(),
            sidebars: Vec::new(),
            history: Vec::new(),
        };
        assert(r@.did =~= Seq::empty());
        assert(r@.doing =~= Seq::empty());
        assert(r@.blockers =~= Seq::empty());
        assert(r@.sidebars =~= Seq::empty());
        assert(r@.history =~= Seq::empty());
        r
    }

    /// Appends `item` to the list of `category` and records the append.
    pub fn add_item(&mut self, category: Category, item: String)
        ensures
            final(self)@ == old(self)@.append(category, item@),
    {
        let entry = HistoryEntry { category, item: item.clone() };
        match category {
            Category::Did => self.did.push(item),
            Category::Doing => self.doing.push(item),
            Category::Blocker => self.blockers.push(item),
            Category::Sidebar => self.sidebars.push(item),
        }
        self.history.push(entry);
        assert(self@.did =~= old(self)@.append(category, item@).did);
        assert(self@.doing =~= old(self)@.append(category, item@).doing);
        assert(self@.blockers =~= old(self)@.append(category, item@).blockers);
        assert(self@.sidebars =~= old(self)@.append(category, item@).sidebars);
        assert(self@.history =~= old(self)@.append(category, item@).history);
    }

    /// Takes back the last append: drops it from the history and its item,
    /// at its last occurrence, from the list it names. Does nothing when the
    /// history is empty.
    pub fn undo(&mut self)
        ensures
            final(self)@ == old(self)@.undo(),
    {
        if self.history.len() == 0 {
            return;
        }
        let entry = self.history.pop().unwrap();
        match entry.category {
            Category::Did => remove_last_occurrence(&mut self.did, &entry.item),
            Category::Doing => remove_last_occurrence(&mut self.doing, &entry.item),
            Category::Blocker => remove_last_occurrence(&mut self.blockers, &entry.item),
            Category::Sidebar => remove_last_occurrence(&mut self.sidebars, &entry.item),
        }
        assert(self@.history =~= old(self)@.undo().history);
        assert(self@.did =~= old(self)@.undo().did);
        assert(self@.doing =~= old(self)@.undo().doing);
        assert(self@.blockers =~= old(self)@.undo().blockers);
        assert(self@.sidebars =~= old(self)@.undo().sidebars);
    }
}

/// Undo after an append gives back the record as it was before the append.
pub proof fn lemma_undo_inverts_append(r: StandupView, c: Category, x: Seq<char>)
    ensures
        r.append(c, x).undo() == r,
{
    let a = r.append(c, x);
    let l = r.list(c).push(x);
    assert(a.list(c) == l);
    assert(l[l.len() - 1] == x);
    lemma_last_pos_at(l, x, l.len() - 1);
    assert(remove_last(l, x) =~= r.list(c));
    assert(a.history.drop_last() =~= r.history);
}

/// Undo on a record with an empty history leaves it unchanged.
pub proof fn lemma_undo_empty_history(r: StandupView)
    requires
        r.history.len() == 0,
    ensures
        r.undo() == r,
{
}


/// Each item on a line of its own, after a dash.
pub open spec fn bullets(s: Seq<Seq<char>>) -> Seq<char>
    decreases s.len(),
{
    if s.len() == 0 {
        Seq::empty()
    } else {
        bullets(s.drop_last()) + "- "@ + s.last() + "\n"@
    }
}

/// A titled section: the title line, then the items.
pub open spec fn section(title: Seq<char>, s: Seq<Seq<char>>) -> Seq<char> {
    title + bullets(s)
}

/// The human-readable rendering: the four lists in the order did, doing,
/// blockers, sidebars, each under its title, sections apart by a blank line.
pub open spec fn render(r: StandupView) -> Seq<char> {
    section("DID:\n"@, r.did) + section("\nDOING:\n"@, r.doing) + section(
        "\nBLOCKERS:\n"@,
        r.blockers,
    ) + section("\nSIDEBARS:\n"@, r.sidebars)
}

/// Appends `title` and then a bullet line for each item of `v` to `out`.
fn push_section(out: &mut String, title: &str, v: &Vec<String>)
    ensures
        final(out)@ == old(out)@ + section(title@, strings_view(v@)),
{
    out.append(title);
    let ghost s = strings_view(v@);
    let ghost start = out@;
    let mut i: usize = 0;
    while i < v.len()
        invariant
            i <= v.len(),
            s == strings_view(v@),
            out@ == start + bullets(s.take(i as int)),
        decreases v.len() - i,
    {
        out.append("- ");
        out.append(v[i].as_str());
        out.append("\n");
        proof {
            assert(s.take(i + 1).drop_last() =~= s.take(i as int));
            assert(s.take(i + 1).last() == v@[i as int]@);
        }
        i = i + 1;
    }
    proof {
        assert(s.take(v.len() as int) =~= s);
    }
}

impl Standup {
    /// The record as plain text for reading and for archives.
    pub fn to_string(&self) -> (r: String)
        ensures
            r@ == render(self@),
    {
        let mut out = String::new();
        push_section(&mut out, "DID:\n", &self.did);
        push_section(&mut out, "\nDOING:\n", &self.doing);
        push_section(&mut out, "\nBLOCKERS:\n", &self.blockers);
        push_section(&mut out, "\nSIDEBARS:\n", &self.sidebars);
        proof {
            assert(out@ =~= render(self@));
        }
        out
    }
}

} // verus!
