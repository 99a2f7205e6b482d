//! Which articles the user has opened, by link, and the text form in which
//! that set is kept between sessions.

use vstd::hash_set::StringHashSet;
use vstd::prelude::*;

verus! {

/// The set of read links after `link` was marked.
pub open spec fn after_mark(read: Set<Seq<char>>, link: Seq<char>) -> Set<Seq<char>> {
    read.insert(link)
}

/// Whether marking `link` adds it, that is whether it was unread.
pub open spec fn mark_is_new(read: Set<Seq<char>>, link: Seq<char>) -> bool {
    !read.contains(link)
}

/// Marking a link is idempotent: the link is read after the first call as
/// after the second, the second call reports no change and leaves the set as
/// the first left it. The first call reports a change exactly when the link
/// was unread.
pub proof fn lemma_mark_read_is_idempotent(read: Set<Seq<char>>, link: Seq<char>)
    ensures
        mark_is_new(read, link) <==> !read.contains(link),
        after_mark(read, link).contains(link),
        !mark_is_new(after_mark(read, link), link),
        after_mark(after_mark(read, link), link) == after_mark(read, link),
        forall|other: Seq<char>| read.contains(other) ==> after_mark(read, link).contains(other),
{
    assert(after_mark(after_mark(read, link), link) =~= after_mark(read, link));
}

/// The links in the order in which they were first marked, after `link` was
/// marked: a new link goes to the end, a known one changes nothing.
pub open spec fn marked_links(links: Seq<Seq<char>>, link: Seq<char>) -> Seq<Seq<char>> {
    if links.contains(link) {
        links
    } else {
        links.push(link)
    }
}

/// The links of a list without repetitions, each where it first occurs.
pub open spec fn first_occurrences(list: Seq<Seq<char>>) -> Seq<Seq<char>>
    decreases list.len(),
{
    if list.len() == 0 {
        Seq::empty()
    } else {
        marked_links(first_occurrences(list.drop_last()), list.last())
    }
}

/// The list of strings that `serde_json::from_str` reads from a text as a
/// `Vec<String>`, or `None` where it rejects the text.
pub uninterp spec fn json_string_list(text: Seq<char>) -> Option<Seq<Seq<char>>>;

/// The text that `serde_json::to_string_pretty` writes for a list of
/// strings.
pub uninterp spec fn json_text_of(list: Seq<Seq<char>>) -> Seq<char>;

#[verifier::external_type_specification]
#[verifier::external_body]
pub struct ExJsonError(serde_json::Error);

/// Calls `serde_json::from_str` for a `Vec<String>`. Trusted: whether the
/// text is accepted and which strings it holds depend on the text alone.
#[verifier::external_body]
fn decode_string_list(text: &str) -> (outcome: Result<Vec<String>, serde_json::Error>)
    ensures
        outcome is Ok <==> json_string_list(text@) is Some,
        outcome is Ok ==> Some(outcome->Ok_0.deep_view()) == json_string_list(text@),
{
    serde_json::from_str::<Vec<String>>(text)
}

/// Calls `serde_json::to_string_pretty` on a `Vec<String>`. Trusted: the
/// text depends on the strings alone, and the call succeeds. It fails only
/// where a value refuses to be serialized or a map has a key that is no
/// string, and a list of strings holds neither.
#[verifier::external_body]
fn encode_string_list(list: &Vec<String>) -> (outcome: Result<String, serde_json::Error>)
    ensures
        outcome is Ok,
        outcome->Ok_0@ == json_text_of(list.deep_view()),
{
    serde_json::to_string_pretty(list)
}

/// The links of the articles that the user has opened. Links are only ever
/// added. They are kept twice: in the order of their first marking, which is
/// the order in which they are written out, and in a hash set for the
/// membership test.
pub struct ReadState {
    links: Vec<String>,
    index: StringHashSet,
}

impl View for ReadState {
    type V = Set<Seq<char>>;

    closed spec fn view(&self) -> Set<Seq<char>> {
        self.index@
    }
}

impl ReadState {
    /// The read links in the order of their first marking.
    pub closed spec fn links(&self) -> Seq<Seq<char>> {
        self.links.deep_view()
    }

    /// The list holds no link twice, and the set holds exactly the links of
    /// the list.
    pub closed spec fn wf(&self) -> bool {
        &&& self.links.deep_view().no_duplicates()
        &&& self.index@ == self.links.deep_view().to_set()
    }

    /// In a well-formed state the set is the set of the listed links.
    pub proof fn lemma_view_is_set_of_links(&self)
        requires
            self.wf(),
        ensures
            self@ == self.links().to_set(),
            self.links().no_duplicates(),
    {
    }

    /// The state in which nothing is read.
    pub fn new() -> (state: ReadState)
        ensures
            state.wf(),
            state@ == Set::<Seq<char>>::empty(),
            state.links() == Seq::<Seq<char>>::empty(),
    {
        let state = ReadState { links: Vec::new(), index: StringHashSet::new() };
        assert(state.links.deep_view() =~= Seq::<Seq<char>>::empty());
        assert(state.index@ =~= state.links.deep_view().to_set());
        state
    }

    /// Whether the article with this link was opened.
    pub fn is_read(&self, link: &str) -> (read: bool)
        ensures
            read == self@.contains(link@),
    {
        self.index.contains(link)
    }

    /// How many links are read.
    pub fn len(&self) -> (count: usize)
        requires
            self.wf(),
        ensures
            count == self.links().len(),
            count == self@.len(),
    {
        proof {
            self.links.deep_view().unique_seq_to_set();
        }
        self.links.len()
    }

    /// Marks the article with this link as read. Returns whether that
    /// changed the state, so that the caller persists only after a change.
    pub fn mark_read(&mut self, link: &str) -> (newly_read: bool)
        requires
            old(self).wf(),
        ensures
            final(self).wf(),
            newly_read == mark_is_new(old(self)@, link@),
            final(self)@ == after_mark(old(self)@, link@),
            final(self).links() == marked_links(old(self).links(), link@),
    {
        if self.index.contains(link) {
            return false;
        }
        let ghost before = self.links.deep_view();
        self.index.insert(link.to_owned());
        self.links.push(link.to_owned());
        proof {
            let after = self.links.deep_view();
            assert(after =~= before.push(link@));
            assert(!before.contains(link@));
            assert(after.no_duplicates());
            assert forall|text: Seq<char>| after.to_set().contains(text) <==> before.to_set().insert(
                link@,
            ).contains(text) by {
                if after.contains(text) {
                    let at = choose|i: int| 0 <= i < after.len() && after[i] == text;
                    if at < before.len() {
                        assert(before[at] == text);
                    }
                }
                if before.contains(text) {
                    let at = choose|i: int| 0 <= i < before.len() && before[i] == text;
                    assert(after[at] == text);
                }
                if text == link@ {
                    assert(after[before.len() as int] == text);
                }
            }
            assert(after.to_set() =~= before.to_set().insert(link@));
        }
        true
    }

    /// The state in which exactly the listed links are read.
    pub fn from_links(list: &Vec<String>) -> (state: ReadState)
        ensures
            state.wf(),
            state@ == list.deep_view().to_set(),
            state.links() == first_occurrences(list.deep_view()),
    {
        let ghost given = list.deep_view();
        let mut state = ReadState::new();
        let mut i: usize = 0;
        proof {
            assert(given.take(0) =~= Seq::<Seq<char>>::empty());
            assert(state@ =~= given.take(0).to_set());
        }
        while i < list.len()
            invariant
                i <= list.len(),
                given == list.deep_view(),
                state.wf(),
                state@ == given.take(i as int).to_set(),
                state.links() == first_occurrences(given.take(i as int)),
            decreases list.len() - i,
        {
            state.mark_read(list[i].as_str());
            proof {
                let shorter = given.take(i as int);
                let longer = given.take(i + 1);
                assert(longer.drop_last() =~= shorter);
                assert(longer.last() == given[i as int]);
                assert forall|text: Seq<char>| longer.to_set().contains(text)
                    <==> shorter.to_set().insert(given[i as int]).contains(text) by {
                    if longer.contains(text) {
                        let at = choose|k: int| 0 <= k < longer.len() && longer[k] == text;
                        if at < i {
                            assert(shorter[at] == text);
                        }
                    }
                    if shorter.contains(text) {
                        let at = choose|k: int| 0 <= k < shorter.len() && shorter[k] == text;
                        assert(longer[at] == text);
                    }
                    if text == given[i as int] {
                        assert(longer[i as int] == text);
                    }
                }
                assert(longer.to_set() =~= shorter.to_set().insert(given[i as int]));
            }
            i += 1;
        }
        proof {
            assert(given.take(i as int) =~= given);
        }
        state
    }

    /// Reads the state from its text form. A text that is no list of
    /// strings gives the empty state, not an error.
    pub fn from_text(text: &str) -> (state: ReadState)
        ensures
            state.wf(),
            state.links() == match json_string_list(text@) {
                Some(list) => first_occurrences(list),
                None => Seq::empty(),
            },
            state@ == match json_string_list(text@) {
                Some(list) => list.to_set(),
                None => Set::empty(),
            },
    {
        match decode_string_list(text) {
            Ok(list) => ReadState::from_links(&list),
            Err(_) => ReadState::new(),
        }
    }

    /// The text form of the state: the read links as a list, in the order of
    /// their first marking.
    pub fn to_text(&self) -> (text: String)
        ensures
            text@ == json_text_of(self.links()),
    {
        encode_string_list(&self.links).unwrap()
    }
}

} // verus!
