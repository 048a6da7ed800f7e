use vstd::prelude::*;

use crate::error::TesseractError;
use crate::results::{NativeText, NativeTextView};

verus! {

/// The integer arrays of the engine end with this value.
pub const INT_SENTINEL: i32 = -1;

/// The values of an integer array before its first sentinel.
pub open spec fn before_sentinel(s: Seq<i32>) -> Seq<i32>
    decreases s.len(),
{
    if s.len() == 0 {
        s
    } else if s[0] == INT_SENTINEL {
        Seq::empty()
    } else {
        seq![s[0]] + before_sentinel(s.drop_first())
    }
}

/// The strings of a string array before its terminating null pointer, or
/// `Utf8Error` if one of them cannot be decoded.
pub open spec fn text_array(s: Seq<NativeTextView>) -> Result<Seq<Seq<char>>, TesseractError>
    decreases s.len(),
{
    if s.len() == 0 {
        Ok(Seq::empty())
    } else {
        match s[0] {
            NativeTextView::Null => Ok(Seq::empty()),
            NativeTextView::NotUtf8 => Err(TesseractError::Utf8Error),
            NativeTextView::Text(t) => match text_array(s.drop_first()) {
                Ok(rest) => Ok(seq![t] + rest),
                Err(e) => Err(e),
            },
        }
    }
}

/// The decoded strings of a run of `Text` elements.
pub open spec fn texts_of(s: Seq<NativeTextView>) -> Seq<Seq<char>> {
    s.map_values(|t: NativeTextView| t->Text_0)
}

proof fn lemma_before_sentinel(s: Seq<i32>)
    requires
        forall|i: int| 0 <= i < s.len() ==> #[trigger] s[i] != INT_SENTINEL,
    ensures
        before_sentinel(s.push(INT_SENTINEL)) == s,
    decreases s.len(),
{
    if s.len() > 0 {
        assert(s.push(INT_SENTINEL).drop_first() == s.drop_first().push(INT_SENTINEL));
        lemma_before_sentinel(s.drop_first());
        assert(seq![s[0]] + s.drop_first() == s);
    }
}

proof fn lemma_text_array(s: Seq<NativeTextView>, last: NativeTextView)
    requires
        forall|i: int| 0 <= i < s.len() ==> #[trigger] s[i] is Text,
        !(last is Text),
    ensures
        text_array(s.push(last)) == if last is Null {
            Ok(texts_of(s))
        } else {
            Err::<Seq<Seq<char>>, TesseractError>(TesseractError::Utf8Error)
        },
    decreases s.len(),
{
    if s.len() > 0 {
        assert(s.push(last).drop_first() == s.drop_first().push(last));
        lemma_text_array(s.drop_first(), last);
        assert(seq![s[0]->Text_0] + texts_of(s.drop_first()) == texts_of(s));
    } else {
        assert(texts_of(s) == Seq::<Seq<char>>::empty());
    }
}

/// An integer array whose first sentinel stands at position `n` yields exactly
/// its first `n` elements, none of them the sentinel, whatever follows; so does
/// the part read up to and including that sentinel, which is what an
/// [`IntArrayReader`] is fed before it stops.
pub proof fn lemma_sentinel_prefix(s: Seq<i32>, n: int)
    requires
        0 <= n < s.len(),
        s[n] == INT_SENTINEL,
        forall|i: int| 0 <= i < n ==> #[trigger] s[i] != INT_SENTINEL,
    ensures
        before_sentinel(s) == s.take(n),
        before_sentinel(s.take(n + 1)) == s.take(n),
        before_sentinel(s).len() == n,
        forall|i: int| 0 <= i < n ==> #[trigger] before_sentinel(s)[i] != INT_SENTINEL,
    decreases n,
{
    assert(s.take(n + 1) == s.take(n).push(INT_SENTINEL));
    lemma_before_sentinel(s.take(n));
    if n > 0 {
        let rest = s.drop_first();
        assert forall|i: int| 0 <= i < n - 1 implies #[trigger] rest[i] != INT_SENTINEL by {
            assert(rest[i] == s[i + 1]);
        }
        lemma_sentinel_prefix(rest, n - 1);
        assert(seq![s[0]] + rest.take(n - 1) == s.take(n));
    }
}

/// Copies a sentinel-terminated integer array, such as the engine's word
/// confidences, one element at a time: the caller feeds elements in order
/// until told to stop, then takes the values before the sentinel.
pub struct IntArrayReader {
    values: Vec<i32>,
    finished: bool,
    fed: Ghost<Seq<i32>>,
}

impl IntArrayReader {
    /// The elements fed so far.
    pub closed spec fn fed(&self) -> Seq<i32> {
        self.fed@
    }

    /// Whether the sentinel was fed.
    pub closed spec fn finished(&self) -> bool {
        self.finished
    }

    pub closed spec fn wf(&self) -> bool {
        &&& forall|i: int| 0 <= i < self.values@.len() ==> #[trigger] self.values@[i] != INT_SENTINEL
        &&& if self.finished {
            self.fed@ == self.values@.push(INT_SENTINEL)
        } else {
            self.fed@ == self.values@
        }
    }

    pub fn new() -> (r: Self)
        ensures
            r.wf(),
            r.fed() == Seq::<i32>::empty(),
            !r.finished(),
    {
        IntArrayReader { values: Vec::new(), finished: false, fed: Ghost(Seq::empty()) }
    }

    /// Whether the sentinel was fed.
    pub fn is_finished(&self) -> (r: bool)
        ensures
            r == self.finished(),
    {
        self.finished
    }

    /// Takes the next element; returns whether more are wanted, which is
    /// whether it was not the sentinel.
    pub fn feed(&mut self, value: i32) -> (more: bool)
        requires
            old(self).wf(),
            !old(self).finished(),
        ensures
            final(self).wf(),
            final(self).fed() == old(self).fed().push(value),
            more == (value != INT_SENTINEL),
            final(self).finished() == !more,
    {
        self.fed = Ghost(self.fed@.push(value));
        if value == INT_SENTINEL {
            self.finished = true;
            false
        } else {
            self.values.push(value);
            true
        }
    }

    /// The values before the sentinel.
    pub fn finish(self) -> (r: Vec<i32>)
        requires
            self.wf(),
            self.finished(),
        ensures
            r@ == before_sentinel(self.fed()),
    {
        proof {
            lemma_before_sentinel(self.values@);
        }
        self.values
    }
}

/// Copies a null-terminated array of engine strings, such as a list of
/// languages, one element at a time: the caller feeds elements in order until
/// told to stop, then takes the strings, or the failure to decode one.
pub struct TextArrayReader {
    texts: Vec<String>,
    finished: bool,
    failed: bool,
    fed: Ghost<Seq<NativeTextView>>,
}

impl TextArrayReader {
    /// The elements fed so far.
    pub closed spec fn fed(&self) -> Seq<NativeTextView> {
        self.fed@
    }

    /// Whether the terminator, or an undecodable string, was fed.
    pub closed spec fn finished(&self) -> bool {
        self.finished
    }

    pub closed spec fn wf(&self) -> bool {
        let done = self.fed@.len() - 1;
        &&& self.failed ==> self.finished
        &&& if self.finished {
            &&& self.fed@.len() > 0
            &&& forall|i: int| 0 <= i < done ==> #[trigger] self.fed@[i] is Text
            &&& if self.failed {
                self.fed@[done] is NotUtf8
            } else {
                self.fed@[done] is Null
            }
            &&& texts_of(self.fed@.take(done)) == self.texts@.map_values(|s: String| s@)
        } else {
            &&& forall|i: int| 0 <= i < self.fed@.len() ==> #[trigger] self.fed@[i] is Text
            &&& texts_of(self.fed@) == self.texts@.map_values(|s: String| s@)
        }
    }

    pub fn new() -> (r: Self)
        ensures
            r.wf(),
            r.fed() == Seq::<NativeTextView>::empty(),
            !r.finished(),
    {
        let r = TextArrayReader {
            texts: Vec::new(),
            finished: false,
            failed: false,
            fed: Ghost(Seq::empty()),
        };
        assert(texts_of(r.fed@) == r.texts@.map_values(|s: String| s@));
        r
    }

    /// Whether the terminator, or an undecodable string, was fed.
    pub fn is_finished(&self) -> (r: bool)
        ensures
            r == self.finished(),
    {
        self.finished
    }

    /// Takes the next element; returns whether more are wanted, which is
    /// whether it was a decoded string.
    pub fn feed(&mut self, item: NativeText) -> (more: bool)
        requires
            old(self).wf(),
            !old(self).finished(),
        ensures
            final(self).wf(),
            final(self).fed() == old(self).fed().push(item@),
            more == (item@ is Text),
            final(self).finished() == !more,
    {
        let ghost before = self.fed@;
        self.fed = Ghost(self.fed@.push(item@));
        proof {
            assert(self.fed@.take(before.len() as int) == before);
        }
        match item {
            NativeText::Null => {
                self.finished = true;
                false
            },
            NativeText::NotUtf8 => {
                self.finished = true;
                self.failed = true;
                false
            },
            NativeText::Text(s) => {
                let ghost old_texts = self.texts@;
                self.texts.push(s);
                assert(texts_of(self.fed@) == texts_of(before).push(item@->Text_0));
                assert(self.texts@.map_values(|s: String| s@) == old_texts.map_values(
                    |s: String| s@,
                ).push(item@->Text_0));
                true
            },
        }
    }

    /// The strings before the terminator, or `Utf8Error` if one of them could
    /// not be decoded.
    pub fn finish(self) -> (r: Result<Vec<String>, TesseractError>)
        requires
            self.wf(),
            self.finished(),
        ensures
            match (r, text_array(self.fed())) {
                (Ok(v), Ok(t)) => v@.map_values(|s: String| s@) == t,
                (Err(e), Err(f)) => e == f,
                _ => false,
            },
    {
        let ghost done = self.fed@.len() - 1;
        proof {
            let front = self.fed@.take(done);
            assert(self.fed@ =~= front.push(self.fed@[done]));
            lemma_text_array(front, self.fed@[done]);
        }
        if self.failed {
            Err(TesseractError::Utf8Error)
        } else {
            Ok(self.texts)
        }
    }
}

} // verus!
