//! Splitting one prompt line into a command token and shell-style words.
//!
//! A line is split on unescaped whitespace. A backslash escapes the next
//! byte; single quotes make a literal span; double quotes make a span in
//! which a backslash escapes the next byte. The tokenizer also reports
//! whether the line ends in unescaped whitespace, which tells completion
//! whether the user has opened a new, still-empty argument slot.
//!
//! The reference semantics is the byte-level state machine [`step`],
//! folded over the line by [`run_from`]; every executable function here is
//! proved against it.

use vstd::prelude::*;
use crate::bytes::{is_ws, ws_byte};

verus! {

/// Lexer mode: outside quotes, after a backslash, inside single quotes,
/// inside double quotes, or after a backslash inside double quotes.
#[derive(Clone, Copy, Debug, PartialEq, Eq, Structural)]
pub enum LexMode {
    Plain,
    Escape,
    Single,
    Double,
    DoubleEscape,
}

/// State of the tokenizer after reading a prefix of the line: the words
/// already closed, the bytes of the word in progress, whether a word is in
/// progress at all, and the lexer mode.
#[verifier::ext_equal]
pub ghost struct TokState {
    pub words: Seq<Seq<u8>>,
    pub cur: Seq<u8>,
    pub open: bool,
    pub mode: LexMode,
}

pub open spec fn init_state() -> TokState {
    (TokState { words: Seq::empty(), cur: Seq::empty(), open: false, mode: LexMode::Plain })
}

/// One byte of input applied to a tokenizer state.
pub open spec fn step(st: TokState, b: u8) -> TokState {
    match st.mode {
        LexMode::Plain => {
            if is_ws(b) {
                if st.open {
                    (TokState {
                        words: st.words.push(st.cur),
                        cur: Seq::empty(),
                        open: false,
                        mode: LexMode::Plain,
                    })
                } else {
                    st
                }
            } else if b == 92 {
                (TokState { mode: LexMode::Escape, open: true, ..st })
            } else if b == 39 {
                (TokState { mode: LexMode::Single, open: true, ..st })
            } else if b == 34 {
                (TokState { mode: LexMode::Double, open: true, ..st })
            } else {
                (TokState { cur: st.cur.push(b), open: true, ..st })
            }
        },
        LexMode::Escape => (TokState { cur: st.cur.push(b), mode: LexMode::Plain, ..st }),
        LexMode::Single => {
            if b == 39 {
                (TokState { mode: LexMode::Plain, ..st })
            } else {
                (TokState { cur: st.cur.push(b), ..st })
            }
        },
        LexMode::Double => {
            if b == 34 {
                (TokState { mode: LexMode::Plain, ..st })
            } else if b == 92 {
                (TokState { mode: LexMode::DoubleEscape, ..st })
            } else {
                (TokState { cur: st.cur.push(b), ..st })
            }
        },
        LexMode::DoubleEscape => (TokState { cur: st.cur.push(b), mode: LexMode::Double, ..st }),
    }
}

/// The tokenizer state machine folded over `s`, starting from `st`.
pub open spec fn run_from(st: TokState, s: Seq<u8>) -> TokState
    decreases s.len(),
{
    if s.len() == 0 {
        st
    } else {
        run_from(step(st, s[0]), s.drop_first())
    }
}

pub open spec fn run(s: Seq<u8>) -> TokState {
    run_from(init_state(), s)
}

/// Closing the final in-progress word, if any.
pub open spec fn finalize(st: TokState) -> Seq<Seq<u8>> {
    if st.open {
        st.words.push(st.cur)
    } else {
        st.words
    }
}

/// The words of a line.
pub open spec fn spec_words(s: Seq<u8>) -> Seq<Seq<u8>> {
    finalize(run(s))
}

/// Whether the line ends in unescaped whitespace: no word is in progress
/// at its end (and the line is not empty).
pub open spec fn spec_ends_ws(s: Seq<u8>) -> bool {
    s.len() > 0 && !run(s).open
}

/// Folding over `s.push(b)` is folding over `s`, then one step on `b`.
pub proof fn lemma_run_from_snoc(st: TokState, s: Seq<u8>, b: u8)
    ensures
        run_from(st, s.push(b)) == step(run_from(st, s), b),
    decreases s.len(),
{
    if s.len() == 0 {
        assert(s.push(b)[0] == b);
        assert(s.push(b).drop_first() =~= Seq::<u8>::empty());
        assert(run_from(st, s.push(b)) == run_from(step(st, b), Seq::<u8>::empty()));
        assert(run_from(step(st, b), Seq::<u8>::empty()) == step(st, b));
        assert(run_from(st, s) == st);
    } else {
        assert(s.push(b)[0] == s[0]);
        assert(s.push(b).drop_first() =~= s.drop_first().push(b));
        lemma_run_from_snoc(step(st, s[0]), s.drop_first(), b);
    }
}

/// Folding over a concatenation folds over each part in turn.
pub proof fn lemma_run_from_app(st: TokState, a: Seq<u8>, b: Seq<u8>)
    ensures
        run_from(st, a + b) == run_from(run_from(st, a), b),
    decreases a.len(),
{
    if a.len() == 0 {
        assert(a + b =~= b);
    } else {
        assert((a + b)[0] == a[0]);
        assert((a + b).drop_first() =~= a.drop_first() + b);
        lemma_run_from_app(step(st, a[0]), a.drop_first(), b);
    }
}

/// Splits a byte string into words. Also returns the byte offset at which
/// the final in-progress word starts, or `s.len()` when the string ends at
/// a word boundary; completion uses it to place replacements.
pub fn split_words(s: &[u8]) -> (r: (Vec<Vec<u8>>, usize))
    ensures
        word_views(r.0@) == spec_words(s@),
        r.1 <= s@.len(),
        run(s@).open ==> (run(s@.subrange(0, r.1 as int)) == (TokState {
            words: run(s@).words,
            cur: Seq::<u8>::empty(),
            open: false,
            mode: LexMode::Plain,
        })),
        run(s@).open ==> r.1 < s@.len(),
        !run(s@).open ==> r.1 == s@.len(),
{
    let mut words: Vec<Vec<u8>> = Vec::new();
    let mut cur: Vec<u8> = Vec::new();
    let mut open: bool = false;
    let mut mode: LexMode = LexMode::Plain;
    let mut last_start: usize = 0;
    let mut i: usize = 0;
    assert(s@.subrange(0, 0) =~= Seq::<u8>::empty());
    while i < s.len()
        invariant
            0 <= i <= s@.len(),
            run(s@.subrange(0, i as int)) == (TokState {
                words: word_views(words@),
                cur: cur@,
                open: open,
                mode: mode,
            }),
            last_start <= i,
            open ==> last_start < i,
            open ==> (run(s@.subrange(0, last_start as int)) == (TokState {
                words: word_views(words@),
                cur: Seq::<u8>::empty(),
                open: false,
                mode: LexMode::Plain,
            })),
            !open ==> (last_start == i && cur@ == Seq::<u8>::empty() && mode == LexMode::Plain),
        decreases s@.len() - i,
    {
        let b: u8 = s[i];
        let ghost pre = run(s@.subrange(0, i as int));
        proof {
            assert(s@.subrange(0, i + 1).drop_last() =~= s@.subrange(0, i as int));
            assert(s@.subrange(0, i + 1) =~= s@.subrange(0, i as int).push(b));
            lemma_run_from_snoc(init_state(), s@.subrange(0, i as int), b);
        }
        match mode {
            LexMode::Plain => {
                if ws_byte(b) {
                    if open {
                        words.push(cur);
                        cur = Vec::new();
                        open = false;
                        proof {
                            assert(word_views(words@) =~= pre.words.push(pre.cur));
                        }
                    }
                    last_start = i + 1;
                } else if b == 92 {
                    if !open {
                        last_start = i;
                    }
                    open = true;
                    mode = LexMode::Escape;
                } else if b == 39 {
                    if !open {
                        last_start = i;
                    }
                    open = true;
                    mode = LexMode::Single;
                } else if b == 34 {
                    if !open {
                        last_start = i;
                    }
                    open = true;
                    mode = LexMode::Double;
                } else {
                    if !open {
                        last_start = i;
                    }
                    open = true;
                    cur.push(b);
                }
            },
            LexMode::Escape => {
                cur.push(b);
                mode = LexMode::Plain;
            },
            LexMode::Single => {
                if b == 39 {
                    mode = LexMode::Plain;
                } else {
                    cur.push(b);
                }
            },
            LexMode::Double => {
                if b == 34 {
                    mode = LexMode::Plain;
                } else if b == 92 {
                    mode = LexMode::DoubleEscape;
                } else {
                    cur.push(b);
                }
            },
            LexMode::DoubleEscape => {
                cur.push(b);
                mode = LexMode::Double;
            },
        }
        i += 1;
        assert(run(s@.subrange(0, i as int)) == (TokState {
            words: word_views(words@),
            cur: cur@,
            open: open,
            mode: mode,
        }));
    }
    assert(s@.subrange(0, i as int) =~= s@);
    if open {
        words.push(cur);
        proof {
            assert(word_views(words@) =~= run(s@).words.push(run(s@).cur));
        }
    } else {
        last_start = s.len();
    }
    (words, last_start)
}

/// The views of a sequence of byte vectors.
pub open spec fn word_views(v: Seq<Vec<u8>>) -> Seq<Seq<u8>> {
    v.map_values(|x: Vec<u8>| x@)
}

/// A prompt line split into its command token, the raw remainder after the
/// command, and whether the line ends in unescaped whitespace.
pub struct Shellwords {
    /// Bytes up to the first whitespace byte.
    pub command: Vec<u8>,
    /// Bytes after the command token and the whitespace run that follows
    /// it, verbatim.
    pub rest: Vec<u8>,
    /// Byte offset of `rest` within the original line.
    pub rest_off: usize,
    /// Whether the line ends in unescaped whitespace.
    pub trailing_ws: bool,
}

/// Length of the command token: the longest whitespace-free prefix.
pub open spec fn spec_command_len(s: Seq<u8>) -> int
    decreases s.len(),
{
    if s.len() == 0 {
        0
    } else if is_ws(s[0]) {
        0
    } else {
        1 + spec_command_len(s.drop_first())
    }
}

/// Offset of the remainder: the command token plus the whitespace run
/// after it.
pub open spec fn spec_rest_off(s: Seq<u8>) -> int
    decreases s.len(),
{
    if s.len() == 0 {
        0
    } else if is_ws(s[0]) {
        ws_run_end(s, 0)
    } else {
        1 + spec_rest_off(s.drop_first())
    }
}

/// The end of the whitespace run beginning at `i`.
pub open spec fn ws_run_end(s: Seq<u8>, i: int) -> int
    decreases s.len() - i,
{
    if i < 0 || i >= s.len() {
        i
    } else if is_ws(s[i]) {
        ws_run_end(s, i + 1)
    } else {
        i
    }
}

pub open spec fn spec_command(s: Seq<u8>) -> Seq<u8> {
    s.subrange(0, spec_command_len(s))
}

pub open spec fn spec_rest(s: Seq<u8>) -> Seq<u8> {
    s.subrange(spec_rest_off(s), s.len() as int)
}

/// Any index with the characterizing properties is the remainder offset.
pub proof fn lemma_rest_off_unique(s: Seq<u8>, c: int, r: int)
    requires
        0 <= c <= r <= s.len(),
        forall|j: int| 0 <= j < c ==> !is_ws(#[trigger] s[j]),
        c == s.len() || is_ws(s[c]),
        forall|j: int| c <= j < r ==> is_ws(#[trigger] s[j]),
        r == s.len() || !is_ws(s[r]),
    ensures
        c == spec_command_len(s),
        r == spec_rest_off(s),
    decreases s.len(),
{
    if s.len() == 0 {
    } else if is_ws(s[0]) {
        assert(c == 0);
        lemma_ws_run_unique(s, 0, r);
    } else {
        assert(c > 0);
        let t = s.drop_first();
        assert forall|j: int| 0 <= j < c - 1 implies !is_ws(#[trigger] t[j]) by {
            assert(t[j] == s[j + 1]);
        }
        assert forall|j: int| c - 1 <= j < r - 1 implies is_ws(#[trigger] t[j]) by {
            assert(t[j] == s[j + 1]);
        }
        if c - 1 < t.len() {
            assert(t[c - 1] == s[c]);
        }
        if r - 1 < t.len() {
            assert(t[r - 1] == s[r]);
        }
        lemma_rest_off_unique(t, c - 1, r - 1);
    }
}

pub proof fn lemma_ws_run_unique(s: Seq<u8>, i: int, r: int)
    requires
        0 <= i <= r <= s.len(),
        forall|j: int| i <= j < r ==> is_ws(#[trigger] s[j]),
        r == s.len() || !is_ws(s[r]),
    ensures
        r == ws_run_end(s, i),
    decreases s.len() - i,
{
    if i < s.len() && is_ws(s[i]) {
        lemma_ws_run_unique(s, i + 1, r);
    }
}

impl Shellwords {
    /// Splits a line into command token, raw remainder and the
    /// trailing-whitespace flag.
    pub fn from_line(line: &[u8]) -> (r: Shellwords)
        ensures
            r.command@ == spec_command(line@),
            r.rest@ == spec_rest(line@),
            r.rest_off == spec_rest_off(line@),
            r.rest_off + r.rest@.len() == line@.len(),
            r.trailing_ws == spec_ends_ws(line@),
    {
        let n: usize = line.len();
        let mut c: usize = 0;
        while c < n && !ws_byte(line[c])
            invariant
                0 <= c <= n,
                n == line@.len(),
                forall|j: int| 0 <= j < c ==> !is_ws(#[trigger] line@[j]),
            decreases n - c,
        {
            c += 1;
        }
        let mut r: usize = c;
        while r < n && ws_byte(line[r])
            invariant
                c <= r <= n,
                n == line@.len(),
                forall|j: int| c <= j < r ==> is_ws(#[trigger] line@[j]),
            decreases n - r,
        {
            r += 1;
        }
        proof {
            lemma_rest_off_unique(line@, c as int, r as int);
        }
        let mut command: Vec<u8> = Vec::new();
        let mut i: usize = 0;
        while i < c
            invariant
                0 <= i <= c <= n,
                n == line@.len(),
                command@ == line@.subrange(0, i as int),
            decreases c - i,
        {
            command.push(line[i]);
            assert(command@ =~= line@.subrange(0, i + 1));
            i += 1;
        }
        let mut rest: Vec<u8> = Vec::new();
        let mut k: usize = r;
        while k < n
            invariant
                r <= k <= n,
                n == line@.len(),
                rest@ == line@.subrange(r as int, k as int),
            decreases n - k,
        {
            rest.push(line[k]);
            assert(rest@ =~= line@.subrange(r as int, k + 1));
            k += 1;
        }
        let trailing_ws: bool = ends_with_unescaped_ws(line);
        (Shellwords { command, rest, rest_off: r, trailing_ws })
    }
}

/// Whether the line ends in unescaped whitespace.
pub fn ends_with_unescaped_ws(line: &[u8]) -> (r: bool)
    ensures
        r == spec_ends_ws(line@),
{
    let (_, last_start) = split_words(line);
    line.len() > 0 && last_start == line.len()
}

/// Escaping a byte that the tokenizer treats specially.
pub open spec fn needs_escape(b: u8) -> bool {
    is_ws(b) || b == 34 || b == 39 || b == 92
}

/// The escaped form of `s`: a backslash before every special byte, so that
/// the result re-tokenizes to exactly `s`.
pub open spec fn escape_spec(s: Seq<u8>) -> Seq<u8>
    decreases s.len(),
{
    if s.len() == 0 {
        Seq::empty()
    } else {
        escape_byte(s[0]) + escape_spec(s.drop_first())
    }
}

pub open spec fn escape_byte(b: u8) -> Seq<u8> {
    if needs_escape(b) {
        seq![92u8, b]
    } else {
        seq![b]
    }
}

pub proof fn lemma_escape_snoc(s: Seq<u8>, b: u8)
    ensures
        escape_spec(s.push(b)) == escape_spec(s) + escape_byte(b),
    decreases s.len(),
{
    if s.len() == 0 {
        assert(s.push(b)[0] == b);
        assert(s.push(b).drop_first() =~= Seq::<u8>::empty());
        assert(escape_spec(s.push(b)) == escape_byte(b) + escape_spec(Seq::<u8>::empty()));
        assert(escape_byte(b) + escape_spec(Seq::<u8>::empty()) =~= escape_byte(b));
        assert(escape_spec(s) + escape_byte(b) =~= escape_byte(b));
    } else {
        assert(s.push(b)[0] == s[0]);
        assert(s.push(b).drop_first() =~= s.drop_first().push(b));
        lemma_escape_snoc(s.drop_first(), b);
        assert(escape_spec(s.push(b)) =~= escape_spec(s) + escape_byte(b));
    }
}

/// Escapes `s` for safe re-insertion into a line: the result, inserted at
/// a word boundary, re-tokenizes to `s`.
pub fn escape(s: &[u8]) -> (r: Vec<u8>)
    ensures
        r@ == escape_spec(s@),
{
    let mut r: Vec<u8> = Vec::new();
    let mut i: usize = 0;
    assert(s@.subrange(0, 0) =~= Seq::<u8>::empty());
    while i < s.len()
        invariant
            0 <= i <= s@.len(),
            r@ == escape_spec(s@.subrange(0, i as int)),
        decreases s@.len() - i,
    {
        let b: u8 = s[i];
        proof {
            assert(s@.subrange(0, i + 1) =~= s@.subrange(0, i as int).push(b));
            lemma_escape_snoc(s@.subrange(0, i as int), b);
        }
        if ws_byte(b) || b == 34 || b == 39 || b == 92 {
            r.push(92);
            r.push(b);
        } else {
            r.push(b);
        }
        assert(r@ =~= escape_spec(s@.subrange(0, i as int)) + escape_byte(b));
        i += 1;
    }
    assert(s@.subrange(0, i as int) =~= s@);
    r
}

/// Running the tokenizer over an escaped string from a plain state appends
/// exactly that string to the word in progress.
pub proof fn lemma_escape_run(st: TokState, v: Seq<u8>)
    requires
        st.mode == LexMode::Plain,
    ensures
        run_from(st, escape_spec(v)) == (TokState {
            words: st.words,
            cur: st.cur + v,
            open: st.open || v.len() > 0,
            mode: LexMode::Plain,
        }),
    decreases v.len(),
{
    if v.len() == 0 {
        assert(escape_spec(v).len() == 0);
        assert(st.cur + v =~= st.cur);
        assert(run_from(st, escape_spec(v)) =~= (TokState {
            words: st.words,
            cur: st.cur + v,
            open: st.open || v.len() > 0,
            mode: LexMode::Plain,
        }));
    } else {
        let b = v[0];
        let stepped = if needs_escape(b) {
            step(step(st, 92), b)
        } else {
            step(st, b)
        };
        assert(stepped == (TokState {
            words: st.words,
            cur: st.cur.push(b),
            open: true,
            mode: LexMode::Plain,
        }));
        lemma_run_from_app(st, escape_byte(b), escape_spec(v.drop_first()));
        assert(escape_spec(v) == escape_byte(b) + escape_spec(v.drop_first()));
        if needs_escape(b) {
            assert(escape_byte(b) =~= seq![92u8, b]);
            assert(escape_byte(b)[0] == 92);
            assert(escape_byte(b).drop_first() =~= seq![b]);
            assert(seq![b][0] == b);
            assert(seq![b].drop_first() =~= Seq::<u8>::empty());
            assert(run_from(st, escape_byte(b)) == run_from(step(st, 92), seq![b]));
            assert(run_from(step(st, 92), seq![b]) == run_from(step(step(st, 92), b),
            Seq::<u8>::empty()));
            assert(run_from(st, escape_byte(b)) == stepped);
        } else {
            assert(escape_byte(b) =~= seq![b]);
            assert(escape_byte(b)[0] == b);
            assert(escape_byte(b).drop_first() =~= Seq::<u8>::empty());
            assert(run_from(st, escape_byte(b)) == run_from(step(st, b), Seq::<u8>::empty()));
            assert(run_from(st, escape_byte(b)) == stepped);
        }
        lemma_escape_run(stepped, v.drop_first());
        assert(st.cur.push(b) + v.drop_first() =~= st.cur + v);
    }
}

/// Round trip: appending the escaped form of a non-empty `v` to a prefix
/// that ends at a word boundary yields that prefix's words plus exactly
/// the word `v`.
pub proof fn lemma_escape_round_trip(prefix: Seq<u8>, v: Seq<u8>)
    requires
        !run(prefix).open,
        run(prefix).mode == LexMode::Plain,
        run(prefix).cur == Seq::<u8>::empty(),
    ensures
        v.len() > 0 ==> spec_words(prefix + escape_spec(v)) == run(prefix).words.push(v),
        v.len() == 0 ==> spec_words(prefix + escape_spec(v)) == run(prefix).words,
{
    lemma_run_from_app(init_state(), prefix, escape_spec(v));
    lemma_escape_run(run(prefix), v);
    assert(run(prefix).cur + v =~= v);
}

} // verus!
