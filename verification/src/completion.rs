//! The completion router: decides what is being completed and where.
//!
//! Given the raw line, the router either offers command names (fuzzy-ranked
//! against the partial command token) or determines the positional slot
//! being completed, the provider registered for that slot, the partial word
//! and the byte offset at which a replacement must be inserted. Provider
//! suggestions are re-escaped so that, substituted at that offset, they
//! re-tokenize to exactly the suggested value.

use vstd::prelude::*;
use vstd::multiset::Multiset;
use vstd::seq_lib::{group_to_multiset_ensures, lemma_multiset_commutative};
use crate::bytes::{self, is_ws};
use crate::completers::CompleterKind;
use crate::registry::{spec_completer_for, spec_resolve, CommandRegistry, TypableCommand};
use crate::shellwords::{
    escape, escape_spec, run, run_from, spec_command, spec_ends_ws, spec_rest, spec_words,
    split_words, step, word_views, LexMode, Shellwords, TokState,
    lemma_escape_round_trip, lemma_run_from_app,
};

verus! {

/// The fuzzy-match score of one candidate against a pattern, as the
/// matcher computes it; `None` when the candidate does not match. The
/// score depends on the pattern and the candidate alone.
pub uninterp spec fn fuzzy_score(pattern: Seq<u8>, item: Seq<u8>) -> Option<u16>;

/// The score of a candidate the matcher can be handed: candidates of
/// 2^32 bytes or more never match, as the matcher does not accept them.
pub open spec fn bounded_score(pattern: Seq<u8>, item: Seq<u8>) -> Option<u16> {
    if item.len() < 0x1_0000_0000 {
        fuzzy_score(pattern, item)
    } else {
        None
    }
}

/// Relies on nucleo_matcher::pattern::Atom::score: the fuzzy match score
/// of one candidate string against a pattern, a pure function of the two.
/// The matcher refuses a haystack of more than `u32::MAX` code points, so
/// a candidate that long (its code points are at most its bytes) is never
/// handed to it.
#[verifier::external_body]
fn fuzzy_score_of(pattern: &[u8], item: &[u8]) -> (r: Option<u16>)
    requires
        item@.len() < 0x1_0000_0000,
    ensures
        r == fuzzy_score(pattern@, item@),
{
    let pattern = String::from_utf8_lossy(pattern);
    let item = String::from_utf8_lossy(item);
    let mut matcher = nucleo_matcher::Matcher::new(nucleo_matcher::Config::DEFAULT);
    let atom = nucleo_matcher::pattern::Atom::new(
        &pattern,
        nucleo_matcher::pattern::CaseMatching::Smart,
        nucleo_matcher::pattern::Normalization::Smart,
        nucleo_matcher::pattern::AtomKind::Fuzzy,
        false,
    );
    let mut buf = Vec::new();
    atom.score(nucleo_matcher::Utf32Str::new(&item, &mut buf), &mut matcher)
}

/// Scores one candidate, refusing to hand the matcher a candidate longer
/// than it accepts.
fn score_candidate(pattern: &[u8], item: &[u8]) -> (r: Option<u16>)
    ensures
        r == bounded_score(pattern@, item@),
{
    if (item.len() as u64) < 0x1_0000_0000u64 {
        fuzzy_score_of(pattern, item)
    } else {
        None
    }
}

/// The items that match the pattern, in input order.
pub open spec fn spec_matching(pattern: Seq<u8>, items: Seq<Seq<u8>>) -> Seq<Seq<u8>>
    decreases items.len(),
{
    if items.len() == 0 {
        Seq::empty()
    } else if bounded_score(pattern, items[0]) is Some {
        seq![items[0]] + spec_matching(pattern, items.drop_first())
    } else {
        spec_matching(pattern, items.drop_first())
    }
}

proof fn lemma_matching_snoc(pattern: Seq<u8>, items: Seq<Seq<u8>>, x: Seq<u8>)
    ensures
        spec_matching(pattern, items.push(x)) == (if bounded_score(pattern, x) is Some {
            spec_matching(pattern, items).push(x)
        } else {
            spec_matching(pattern, items)
        }),
    decreases items.len(),
{
    if items.len() == 0 {
        assert(items.push(x)[0] == x);
        assert(items.push(x).drop_first() =~= Seq::<Seq<u8>>::empty());
        assert(spec_matching(pattern, Seq::<Seq<u8>>::empty()) =~= Seq::<Seq<u8>>::empty());
        assert(items =~= Seq::<Seq<u8>>::empty());
        if bounded_score(pattern, x) is Some {
            assert(spec_matching(pattern, items.push(x)) == seq![x] + spec_matching(
                pattern,
                Seq::<Seq<u8>>::empty(),
            ));
            assert(seq![x] + Seq::<Seq<u8>>::empty() =~= spec_matching(pattern, items).push(x));
        } else {
            assert(spec_matching(pattern, items.push(x)) == spec_matching(
                pattern,
                Seq::<Seq<u8>>::empty(),
            ));
        }
    } else {
        assert(items.push(x)[0] == items[0]);
        assert(items.push(x).drop_first() =~= items.drop_first().push(x));
        lemma_matching_snoc(pattern, items.drop_first(), x);
        if bounded_score(pattern, items[0]) is Some {
            if bounded_score(pattern, x) is Some {
                assert(seq![items[0]] + spec_matching(pattern, items.drop_first()).push(x)
                    =~= (seq![items[0]] + spec_matching(pattern, items.drop_first())).push(x));
            }
        }
    }
}

/// Inserting into a sequence inserts into its multiset.
proof fn lemma_ms_insert(s: Seq<Seq<u8>>, i: int, x: Seq<u8>)
    requires
        0 <= i <= s.len(),
    ensures
        s.insert(i, x).to_multiset() =~= s.to_multiset().insert(x),
{
    broadcast use group_to_multiset_ensures;

    assert(s.insert(i, x) =~= s.take(i) + (seq![x] + s.skip(i)));
    assert(s =~= s.take(i) + s.skip(i));
    lemma_multiset_commutative(s.take(i), seq![x] + s.skip(i));
    lemma_multiset_commutative(seq![x], s.skip(i));
    lemma_multiset_commutative(s.take(i), s.skip(i));
    assert(seq![x] =~= Seq::<Seq<u8>>::empty().push(x));
    assert(seq![x].to_multiset() =~= Multiset::<Seq<u8>>::empty().insert(x));
}

/// All elements of `s` match the pattern, and scores never increase along
/// the sequence.
pub open spec fn ranked(pattern: Seq<u8>, s: Seq<Seq<u8>>) -> bool {
    &&& forall|i: int| 0 <= i < s.len() ==> #[trigger] bounded_score(pattern, s[i]) is Some
    &&& forall|i: int, j: int|
        0 <= i <= j < s.len() ==> #[trigger] bounded_score(pattern, s[i]).unwrap()
            >= #[trigger] bounded_score(pattern, s[j]).unwrap()
}

/// Ranks the items that fuzzy-match `pattern` by descending score. An
/// empty pattern matches everything equally and keeps the input order.
pub fn rank_candidates(pattern: &[u8], items: &Vec<Vec<u8>>) -> (r: Vec<Vec<u8>>)
    ensures
        pattern@.len() == 0 ==> word_views(r@) == word_views(items@),
        pattern@.len() > 0 ==> {
            &&& word_views(r@).to_multiset() == spec_matching(
                pattern@,
                word_views(items@),
            ).to_multiset()
            &&& ranked(pattern@, word_views(r@))
        },
{
    if pattern.len() == 0 {
        let mut r: Vec<Vec<u8>> = Vec::new();
        let mut i: usize = 0;
        while i < items.len()
            invariant
                0 <= i <= items@.len(),
                word_views(r@) == word_views(items@).take(i as int),
            decreases items@.len() - i,
        {
            let ghost pre = word_views(r@);
            r.push(bytes::to_vec(items[i].as_slice()));
            assert(word_views(r@) =~= pre.push(word_views(items@)[i as int]));
            assert(word_views(r@) =~= word_views(items@).take(i + 1));
            i += 1;
        }
        assert(word_views(items@).take(items@.len() as int) =~= word_views(items@));
        return r;
    }
    let mut out: Vec<Vec<u8>> = Vec::new();
    let mut i: usize = 0;
    proof {
        broadcast use group_to_multiset_ensures;

        assert(word_views(items@).take(0int) =~= Seq::<Seq<u8>>::empty());
        assert(word_views(out@) =~= Seq::<Seq<u8>>::empty());
        assert(spec_matching(pattern@, Seq::<Seq<u8>>::empty()) =~= Seq::<Seq<u8>>::empty());
    }
    while i < items.len()
        invariant
            0 <= i <= items@.len(),
            pattern@.len() > 0,
            word_views(out@).to_multiset() == spec_matching(
                pattern@,
                word_views(items@).take(i as int),
            ).to_multiset(),
            ranked(pattern@, word_views(out@)),
        decreases items@.len() - i,
    {
        let ghost taken = word_views(items@).take(i as int);
        proof {
            assert(word_views(items@).take(i + 1) =~= taken.push(word_views(items@)[i as int]));
            lemma_matching_snoc(pattern@, taken, word_views(items@)[i as int]);
        }
        let item: &Vec<u8> = &items[i];
        assert(item@ == word_views(items@)[i as int]);
        let score: Option<u16> = score_candidate(pattern, item.as_slice());
        match score {
            None => {},
            Some(sc) => {
                let mut idx: usize = 0;
                while idx < out.len()
                    invariant_except_break
                        0 <= idx <= out@.len(),
                        bounded_score(pattern@, item@) == Some(sc),
                        ranked(pattern@, word_views(out@)),
                        forall|j: int|
                            0 <= j < idx ==> #[trigger] bounded_score(
                                pattern@,
                                word_views(out@)[j],
                            ).unwrap() >= sc,
                    ensures
                        0 <= idx <= out@.len(),
                        forall|j: int|
                            0 <= j < idx ==> #[trigger] bounded_score(
                                pattern@,
                                word_views(out@)[j],
                            ).unwrap() >= sc,
                        idx < out@.len() ==> bounded_score(
                            pattern@,
                            word_views(out@)[idx as int],
                        ).unwrap() < sc,
                    decreases out@.len() - idx,
                {
                    assert(out@[idx as int]@ == word_views(out@)[idx as int]);
                    let cur_score: Option<u16> = score_candidate(pattern, out[idx].as_slice());
                    assert(cur_score is Some);
                    let keep: bool = match cur_score {
                        Some(cs) => cs >= sc,
                        None => false,
                    };
                    if !keep {
                        break;
                    }
                    idx += 1;
                }
                let ghost pre = word_views(out@);
                out.insert(idx, bytes::to_vec(item.as_slice()));
                proof {
                    broadcast use group_to_multiset_ensures;

                    assert(word_views(out@) =~= pre.insert(idx as int, item@));
                    lemma_ms_insert(pre, idx as int, item@);
                    assert(spec_matching(pattern@, word_views(items@).take(i + 1))
                        == spec_matching(pattern@, taken).push(item@));
                    assert(spec_matching(pattern@, taken).push(item@).to_multiset()
                        =~= spec_matching(pattern@, taken).to_multiset().insert(item@));
                    assert(word_views(out@).to_multiset() =~= spec_matching(
                        pattern@,
                        word_views(items@).take(i + 1),
                    ).to_multiset());
                    assert forall|a: int, b: int|
                        0 <= a <= b < word_views(out@).len() implies #[trigger] bounded_score(
                        pattern@,
                        word_views(out@)[a],
                    ).unwrap() >= #[trigger] bounded_score(pattern@, word_views(out@)[b]).unwrap() by {
                        let n = word_views(out@);
                        if a < idx {
                            assert(n[a] == pre[a]);
                        }
                        if b < idx {
                            assert(n[b] == pre[b]);
                        }
                        if a > idx {
                            assert(n[a] == pre[a - 1]);
                        }
                        if b > idx {
                            assert(n[b] == pre[b - 1]);
                        }
                        if a == idx {
                            assert(n[a] == item@);
                        }
                        if b == idx {
                            assert(n[b] == item@);
                        }
                        if b > idx && idx < pre.len() {
                            assert(bounded_score(pattern@, pre[idx as int]).unwrap() < sc);
                        }
                    }
                }
            },
        }
        i += 1;
    }
    assert(word_views(items@).take(items@.len() as int) =~= word_views(items@));
    out
}

/// The positional slot currently being completed: the number of argument
/// words already completed. A line ending mid-word is still completing
/// that word's slot; a line ending in whitespace has opened the next one.
pub open spec fn spec_arg_num(rest: Seq<u8>, ends_ws: bool) -> int {
    let n = spec_words(rest).len() as int;
    if ends_ws {
        n
    } else if n > 0 {
        n - 1
    } else {
        0
    }
}

/// Which positional argument is currently being completed.
pub fn argument_number_of(shellwords: &Shellwords) -> (r: usize)
    ensures
        r == spec_arg_num(shellwords.rest@, shellwords.trailing_ws),
{
    let (words, _) = split_words(shellwords.rest.as_slice());
    let n: usize = words.len();
    if shellwords.trailing_ws {
        n
    } else if n > 0 {
        n - 1
    } else {
        0
    }
}

/// The slot index equals the number of closed words of the remainder,
/// whenever the trailing-whitespace flag agrees with the tokenizer state
/// (as it does for a flag computed from the same line).
pub proof fn lemma_slot_is_closed_words(rest: Seq<u8>, ends_ws: bool)
    requires
        rest.len() > 0 ==> ends_ws == !run(rest).open,
    ensures
        spec_arg_num(rest, ends_ws) == run(rest).words.len(),
{
    if rest.len() == 0 {
        assert(run(rest).words =~= Seq::<Seq<u8>>::empty());
        assert(spec_words(rest) =~= Seq::<Seq<u8>>::empty());
    }
}

proof fn lemma_step_words_monotonic(st: TokState, b: u8)
    ensures
        step(st, b).words.len() >= st.words.len(),
{
}

proof fn lemma_run_words_monotonic(st: TokState, s: Seq<u8>)
    ensures
        run_from(st, s).words.len() >= st.words.len(),
    decreases s.len(),
{
    if s.len() > 0 {
        lemma_step_words_monotonic(st, s[0]);
        lemma_run_words_monotonic(step(st, s[0]), s.drop_first());
    }
}

/// The slot index is monotonically non-decreasing as the line grows: text
/// appended to the remainder never closes fewer words.
pub proof fn lemma_slot_monotonic(rest: Seq<u8>, ext: Seq<u8>)
    ensures
        run(rest + ext).words.len() >= run(rest).words.len(),
{
    lemma_run_from_app(crate::shellwords::init_state(), rest, ext);
    lemma_run_words_monotonic(run(rest), ext);
}

/// Appending a single space after a complete word advances the slot index
/// by exactly one: the word closes and a new, empty slot opens.
pub proof fn lemma_slot_advances_on_space(rest: Seq<u8>)
    requires
        run(rest).open,
        run(rest).mode == LexMode::Plain,
    ensures
        run(rest.push(32)).words.len() == run(rest).words.len() + 1,
        !run(rest.push(32)).open,
{
    crate::shellwords::lemma_run_from_snoc(crate::shellwords::init_state(), rest, 32);
}

/// A suggested replacement: the byte offset at which it starts and the
/// text to insert there.
pub struct Suggestion {
    pub start: usize,
    pub text: Vec<u8>,
}

/// What the router decided for a line.
pub enum CompletionRequest {
    /// The command token is still being typed: these are the matching
    /// command names, ranked, each replacing the line from its start.
    Names(Vec<Vec<u8>>),
    /// Positional slot `slot` is being completed: run this provider on the
    /// partial word and substitute its suggestions from `word_start`.
    Argument { completer: CompleterKind, slot: usize, word: Vec<u8>, word_start: usize },
    /// Nothing to complete: the command token resolves to no command.
    Empty,
}

/// The names of all registered commands, in registration order. Aliases
/// are not offered in suggestions.
pub open spec fn registry_names(cmds: Seq<TypableCommand>) -> Seq<Seq<u8>> {
    cmds.map_values(|c: TypableCommand| c.name@)
}

/// Decides what the line at its end is completing.
///
/// While the command token is still being typed, the candidates are the
/// registered command names fuzzy-ranked against it. Once a command is
/// resolved and an argument begun, the request names the provider of the
/// positional slot being completed, the partial word, and the absolute
/// byte offset where replacements start; the line up to that offset ends
/// at a word boundary, so an escaped suggestion substituted there
/// re-tokenizes to itself.
pub fn completion_request(reg: &CommandRegistry, line: &[u8]) -> (r: CompletionRequest)
    ensures
        ({
            let cmd = spec_command(line@);
            let rest = spec_rest(line@);
            let ends = spec_ends_ws(line@);
            if cmd.len() == 0 || (spec_words(rest).len() == 0 && !ends) {
                match r {
                    CompletionRequest::Names(v) => {
                        &&& cmd.len() == 0 ==> word_views(v@) == registry_names(reg.commands@)
                        &&& cmd.len() > 0 ==> word_views(v@).to_multiset() == spec_matching(
                            cmd,
                            registry_names(reg.commands@),
                        ).to_multiset() && ranked(cmd, word_views(v@))
                    },
                    _ => false,
                }
            } else {
                match spec_resolve(reg.commands@, cmd) {
                    None => r is Empty,
                    Some(k) => match r {
                        CompletionRequest::Argument { completer, slot, word, word_start } => {
                            &&& slot == spec_arg_num(rest, ends)
                            &&& completer == spec_completer_for(
                                &reg.commands@[k].signature.completer,
                                slot as int,
                            )
                            &&& word_start <= line@.len()
                            &&& ends ==> word@.len() == 0 && word_start == line@.len()
                            &&& !ends ==> {
                                &&& spec_words(line@).len() > 0
                                &&& word@ == spec_words(line@).last()
                                &&& (run(line@.subrange(0, word_start as int)) == (TokState {
                                    words: run(line@).words,
                                    cur: Seq::<u8>::empty(),
                                    open: false,
                                    mode: LexMode::Plain,
                                }))
                            }
                        },
                        _ => false,
                    },
                }
            }
        }),
{
    let sw = Shellwords::from_line(line);
    let (rest_words, _) = split_words(sw.rest.as_slice());
    if sw.command.len() == 0 || (rest_words.len() == 0 && !sw.trailing_ws) {
        let mut names: Vec<Vec<u8>> = Vec::new();
        let mut i: usize = 0;
        while i < reg.len()
            invariant
                0 <= i <= reg.commands@.len(),
                word_views(names@) == registry_names(reg.commands@).take(i as int),
            decreases reg.commands@.len() - i,
        {
            let ghost pre = word_views(names@);
            names.push(bytes::to_vec(reg.get(i).name.as_slice()));
            assert(word_views(names@) =~= pre.push(registry_names(reg.commands@)[i as int]));
            assert(word_views(names@) =~= registry_names(reg.commands@).take(i + 1));
            i += 1;
        }
        assert(registry_names(reg.commands@).take(reg.commands@.len() as int) =~= registry_names(
            reg.commands@,
        ));
        let ranked_names = rank_candidates(sw.command.as_slice(), &names);
        return CompletionRequest::Names(ranked_names);
    }
    match reg.resolve(sw.command.as_slice()) {
        None => CompletionRequest::Empty,
        Some(cmd) => {
            let slot: usize = argument_number_of(&sw);
            let completer: CompleterKind = cmd.completer_for_argument_number(slot);
            if sw.trailing_ws {
                CompletionRequest::Argument {
                    completer,
                    slot,
                    word: Vec::new(),
                    word_start: line.len(),
                }
            } else {
                let (line_words, last_start) = split_words(line);
                assert(spec_ends_ws(line@) == sw.trailing_ws);
                assert(line@.len() > 0);
                assert(run(line@).open);
                let word: Vec<u8> = match line_words.last() {
                    Some(w) => bytes::to_vec(w.as_slice()),
                    None => Vec::new(),
                };
                proof {
                    assert(spec_words(line@).len() == run(line@).words.len() + 1);
                    assert(word_views(line_words@).len() > 0);
                    assert(word_views(line_words@).last() == line_words@.last()@);
                    assert(word@ == spec_words(line@).last());
                }
                CompletionRequest::Argument { completer, slot, word, word_start: last_start }
            }
        },
    }
}

/// Remaps provider suggestions from word-relative to absolute offsets and
/// escapes each replacement for safe re-insertion into the line.
pub fn remap_suggestions(word_start: usize, suggestions: Vec<Suggestion>) -> (r: Vec<Suggestion>)
    requires
        forall|i: int|
            0 <= i < suggestions@.len() ==> word_start + #[trigger] suggestions@[i].start
                <= usize::MAX,
    ensures
        r@.len() == suggestions@.len(),
        forall|i: int|
            0 <= i < r@.len() ==> #[trigger] r@[i].start == word_start + suggestions@[i].start
                && r@[i].text@ == escape_spec(suggestions@[i].text@),
{
    let mut r: Vec<Suggestion> = Vec::new();
    let mut i: usize = 0;
    while i < suggestions.len()
        invariant
            0 <= i <= suggestions@.len(),
            r@.len() == i,
            forall|j: int|
                0 <= j < suggestions@.len() ==> word_start + #[trigger] suggestions@[j].start
                    <= usize::MAX,
            forall|j: int|
                0 <= j < i ==> #[trigger] r@[j].start == word_start + suggestions@[j].start
                    && r@[j].text@ == escape_spec(suggestions@[j].text@),
        decreases suggestions@.len() - i,
    {
        let escaped: Vec<u8> = escape(suggestions[i].text.as_slice());
        r.push(Suggestion { start: word_start + suggestions[i].start, text: escaped });
        i += 1;
    }
    r
}

/// Round trip: an escaped suggestion substituted into the line at a word
/// boundary re-tokenizes to exactly the suggested value, as the line's one
/// new word. The word boundary returned by [`completion_request`]
/// satisfies the hypothesis.
pub proof fn lemma_suggestion_round_trip(line: Seq<u8>, start: int, v: Seq<u8>)
    requires
        0 <= start <= line.len(),
        !run(line.subrange(0, start)).open,
        run(line.subrange(0, start)).mode == LexMode::Plain,
        run(line.subrange(0, start)).cur == Seq::<u8>::empty(),
        v.len() > 0,
    ensures
        spec_words(line.subrange(0, start) + escape_spec(v)) == run(
            line.subrange(0, start),
        ).words.push(v),
        spec_words(line.subrange(0, start) + escape_spec(v)).last() == v,
{
    lemma_escape_round_trip(line.subrange(0, start), v);
}

} // verus!
