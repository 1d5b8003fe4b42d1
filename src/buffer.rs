use vstd::prelude::*;

verus! {

/// A zero-based line / character position in a document.
#[derive(Clone, Copy, Debug, PartialEq, Eq)]
pub struct TextPosition {
    pub line: u32,
    pub character: u32,
}

/// A span between two positions of a document.
#[derive(Clone, Copy, Debug, PartialEq, Eq)]
pub struct TextRange {
    pub start: TextPosition,
    pub end: TextPosition,
}

/// One change notification for a document: either a replacement of the
/// whole text (no range) or an edit of a span.
#[derive(Clone, Debug)]
pub struct ContentChange {
    pub range: Option<TextRange>,
    pub range_length: Option<u32>,
    pub text: String,
}

impl ContentChange {
    /// The change replaces the entire document.
    pub open spec fn is_whole_document(&self) -> bool {
        self.range is None && self.range_length is None
    }
}

/// Sequences of changes that the store applies: exactly one whole-document
/// replacement.
pub open spec fn is_supported_update(changes: Seq<ContentChange>) -> bool {
    changes.len() == 1 && changes[0].is_whole_document()
}

#[derive(Clone, Copy, Debug, PartialEq, Eq)]
pub enum BufferError {
    /// Anything but a single whole-document replacement was received.
    UnsupportedChange,
}

impl BufferError {
    pub fn message(&self) -> (r: String)
        ensures
            r@ == "could not update buffer"@,
    {
        match self {
            BufferError::UnsupportedChange => "could not update buffer".to_owned(),
        }
    }
}

/// The latest known full text of each open document, keyed by path.
#[derive(Debug)]
pub struct Buffers {
    buffers: Vec<(String, String)>,
}

/// Index of the entry whose key is `k`; meaningful when exactly one has it.
spec fn index_of_key(s: Seq<(String, String)>, k: Seq<char>) -> int {
    choose|i: int| 0 <= i < s.len() && s[i].0@ == k
}

spec fn has_key(s: Seq<(String, String)>, k: Seq<char>) -> bool {
    exists|i: int| 0 <= i < s.len() && s[i].0@ == k
}

spec fn keys_unique(s: Seq<(String, String)>) -> bool {
    forall|i: int, j: int|
        0 <= i < s.len() && 0 <= j < s.len() && #[trigger] s[i].0@ == #[trigger] s[j].0@ ==> i == j
}

spec fn entries_view(s: Seq<(String, String)>) -> Map<Seq<char>, Seq<char>> {
    Map::new(|k: Seq<char>| has_key(s, k), |k: Seq<char>| s[index_of_key(s, k)].1@)
}

proof fn lemma_index_of_key(s: Seq<(String, String)>, i: int)
    requires
        keys_unique(s),
        0 <= i < s.len(),
    ensures
        has_key(s, s[i].0@),
        index_of_key(s, s[i].0@) == i,
{
    let k = s[i].0@;
    assert(has_key(s, k));
    let j = index_of_key(s, k);
    assert(s[j].0@ == s[i].0@);
}

impl View for Buffers {
    type V = Map<Seq<char>, Seq<char>>;

    closed spec fn view(&self) -> Map<Seq<char>, Seq<char>> {
        entries_view(self.buffers@)
    }
}

impl Buffers {
    /// No two entries share a path.
    pub closed spec fn wf(&self) -> bool {
        keys_unique(self.buffers@)
    }

    pub fn new() -> (r: Self)
        ensures
            r.wf(),
            r@ == Map::<Seq<char>, Seq<char>>::empty(),
    {
        let r = Buffers { buffers: Vec::new() };
        assert(r@ =~= Map::<Seq<char>, Seq<char>>::empty());
        r
    }

    fn find(&self, key: &String) -> (r: Option<usize>)
        requires
            self.wf(),
        ensures
            r is None <==> !self@.contains_key(key@),
            r matches Some(i) ==> i < self.buffers@.len() && self.buffers@[i as int].0@ == key@,
    {
        let mut i: usize = 0;
        while i < self.buffers.len()
            invariant
                i <= self.buffers@.len(),
                forall|j: int| 0 <= j < i ==> self.buffers@[j].0@ != key@,
            decreases self.buffers@.len() - i,
        {
            if self.buffers[i].0 == *key {
                return Some(i);
            }
            i = i + 1;
        }
        None
    }

    fn store(&mut self, key: String, text: String)
        requires
            old(self).wf(),
        ensures
            final(self).wf(),
            final(self)@ == old(self)@.insert(key@, text@),
    {
        let ghost k = key@;
        let ghost v = text@;
        match self.find(&key) {
            Some(i) => {
                let ghost before = self.buffers@;
                self.buffers.set(i, (key, text));
                let ghost after = self.buffers@;
                assert forall|a: int, b: int|
                    0 <= a < after.len() && 0 <= b < after.len() && #[trigger] after[a].0@
                        == #[trigger] after[b].0@ implies a == b by {
                    assert(after[a].0@ == before[a].0@);
                    assert(after[b].0@ == before[b].0@);
                }
                assert forall|q: Seq<char>| has_key(after, q) == (has_key(before, q) || q == k) by {
                    if has_key(after, q) {
                        let j = choose|j: int| 0 <= j < after.len() && after[j].0@ == q;
                        assert(before[j].0@ == q);
                    }
                    if has_key(before, q) {
                        let j = choose|j: int| 0 <= j < before.len() && before[j].0@ == q;
                        assert(after[j].0@ == q);
                    }
                }
                assert forall|q: Seq<char>| #[trigger] has_key(after, q) implies after[index_of_key(
                    after,
                    q,
                )].1@ == (if q == k {
                    v
                } else {
                    before[index_of_key(before, q)].1@
                }) by {
                    let j = choose|j: int| 0 <= j < after.len() && after[j].0@ == q;
                    lemma_index_of_key(after, j);
                    assert(before[j].0@ == q);
                    lemma_index_of_key(before, j);
                }
                assert(self@ =~= old(self)@.insert(k, v));
            },
            None => {
                let ghost before = self.buffers@;
                self.buffers.push((key, text));
                let ghost after = self.buffers@;
                let ghost n = before.len() as int;
                assert forall|a: int, b: int|
                    0 <= a < after.len() && 0 <= b < after.len() && #[trigger] after[a].0@
                        == #[trigger] after[b].0@ implies a == b by {
                    if a < n && b == n {
                        assert(has_key(before, k));
                    }
                    if b < n && a == n {
                        assert(has_key(before, k));
                    }
                }
                assert forall|q: Seq<char>| has_key(after, q) == (has_key(before, q) || q == k) by {
                    if has_key(after, q) {
                        let j = choose|j: int| 0 <= j < after.len() && after[j].0@ == q;
                        if j < n {
                            assert(before[j].0@ == q);
                        }
                    }
                    if has_key(before, q) {
                        let j = choose|j: int| 0 <= j < before.len() && before[j].0@ == q;
                        assert(after[j].0@ == q);
                    }
                    if q == k {
                        assert(after[n].0@ == q);
                    }
                }
                assert forall|q: Seq<char>| #[trigger] has_key(after, q) implies after[index_of_key(
                    after,
                    q,
                )].1@ == (if q == k {
                    v
                } else {
                    before[index_of_key(before, q)].1@
                }) by {
                    let j = choose|j: int| 0 <= j < after.len() && after[j].0@ == q;
                    lemma_index_of_key(after, j);
                    if j < n {
                        assert(before[j].0@ == q);
                        lemma_index_of_key(before, j);
                    }
                }
                assert(self@ =~= old(self)@.insert(k, v));
            },
        }
    }

    /// Applies a change notification: only a single whole-document
    /// replacement is supported; anything else leaves the store unchanged.
    pub fn update_buffer(&mut self, file_name: &str, changes: &[ContentChange]) -> (r: Result<
        (),
        BufferError,
    >)
        requires
            old(self).wf(),
        ensures
            final(self).wf(),
            r is Ok <==> is_supported_update(changes@),
            r is Ok ==> final(self)@ == old(self)@.insert(file_name@, changes@[0].text@),
            r is Err ==> final(self)@ == old(self)@ && r == Err::<(), _>(
                BufferError::UnsupportedChange,
            ),
    {
        if changes.len() == 1 && changes[0].range.is_none() && changes[0].range_length.is_none() {
            let text = changes[0].text.clone();
            self.store(file_name.to_owned(), text);
            Ok(())
        } else {
            Err(BufferError::UnsupportedChange)
        }
    }

    /// Stores or replaces the full text of a document.
    pub fn create_buffer(&mut self, file_name: String, content: String)
        requires
            old(self).wf(),
        ensures
            final(self).wf(),
            final(self)@ == old(self)@.insert(file_name@, content@),
    {
        self.store(file_name, content);
    }

    /// The current text of a document, if it is known.
    pub fn get_buffer(&self, file_name: &str) -> (r: Option<&str>)
        requires
            self.wf(),
        ensures
            r is Some <==> self@.contains_key(file_name@),
            r matches Some(s) ==> s@ == self@[file_name@],
    {
        let key = file_name.to_owned();
        match self.find(&key) {
            Some(i) => {
                proof {
                    lemma_index_of_key(self.buffers@, i as int);
                }
                Some(self.buffers[i].1.as_str())
            },
            None => None,
        }
    }
}

} // verus!
