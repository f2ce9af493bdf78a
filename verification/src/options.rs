//! Configuration options as a closed union of value kinds.
//!
//! The editor's runtime configuration is modeled as an explicit list of
//! key-value entries. Each value is one of four kinds — boolean, string,
//! integer, list of strings — and each kind has one toggle rule: a boolean
//! negates; a string or integer cycles through a user-supplied candidate
//! list; a list swaps between exactly two user-supplied candidate lists by
//! structural equality. A list is written `[item,item,...]`.

use vstd::prelude::*;
use vstd::string::StringSliceAdditionalSpecFns;
use crate::bytes;
use crate::shellwords::word_views;

verus! {

/// A configuration value.
#[verifier::ext_equal]
pub enum OptionValue {
    Bool(bool),
    Str(Vec<u8>),
    Int(i64),
    List(Vec<Vec<u8>>),
}

/// One configuration entry.
#[verifier::ext_equal]
pub struct ConfigEntry {
    pub key: Vec<u8>,
    pub value: OptionValue,
}

/// Index of the entry for `key`.
pub open spec fn spec_find_key(cfg: Seq<ConfigEntry>, key: Seq<u8>) -> Option<int>
    decreases cfg.len(),
{
    if cfg.len() == 0 {
        None
    } else if cfg[0].key@ == key {
        Some(0int)
    } else {
        match spec_find_key(cfg.drop_first(), key) {
            Some(k) => Some(k + 1),
            None => None,
        }
    }
}

pub proof fn lemma_find_key(cfg: Seq<ConfigEntry>, key: Seq<u8>)
    ensures
        spec_find_key(cfg, key) matches Some(k) ==> 0 <= k < cfg.len() && cfg[k].key@ == key,
    decreases cfg.len(),
{
    if cfg.len() > 0 && !(cfg[0].key@ == key) {
        lemma_find_key(cfg.drop_first(), key);
        match spec_find_key(cfg.drop_first(), key) {
            Some(k) => {
                assert(cfg.drop_first()[k] == cfg[k + 1]);
            },
            None => {},
        }
    }
}

/// Finds the entry for `key`.
pub fn find_key(cfg: &Vec<ConfigEntry>, key: &[u8]) -> (r: Option<usize>)
    ensures
        match spec_find_key(cfg@, key@) {
            Some(k) => r matches Some(i) && i == k,
            None => r is None,
        },
{
    let mut i: usize = 0;
    assert(cfg@.skip(0int) =~= cfg@);
    while i < cfg.len()
        invariant
            0 <= i <= cfg@.len(),
            spec_find_key(cfg@, key@) == (match spec_find_key(cfg@.skip(i as int), key@) {
                Some(k) => Some(k + i),
                None => None::<int>,
            }),
        decreases cfg@.len() - i,
    {
        proof {
            assert(cfg@.skip(i as int)[0] == cfg@[i as int]);
            assert(cfg@.skip(i as int).drop_first() =~= cfg@.skip(i + 1));
        }
        if bytes::bytes_eq(cfg[i].key.as_slice(), key) {
            return Some(i);
        }
        i += 1;
    }
    assert(cfg@.skip(i as int) =~= Seq::<ConfigEntry>::empty());
    None
}

/// Mathematical image of [`OptionValue`].
#[verifier::ext_equal]
pub ghost enum OptionValueView {
    Bool(bool),
    Str(Seq<u8>),
    Int(int),
    List(Seq<Seq<u8>>),
}

impl View for OptionValue {
    type V = OptionValueView;

    open spec fn view(&self) -> OptionValueView {
        match self {
            OptionValue::Bool(b) => OptionValueView::Bool(*b),
            OptionValue::Str(s) => OptionValueView::Str(s@),
            OptionValue::Int(n) => OptionValueView::Int(*n as int),
            OptionValue::List(items) => OptionValueView::List(word_views(items@)),
        }
    }
}

/// Mathematical image of [`ConfigEntry`].
#[verifier::ext_equal]
pub ghost struct ConfigEntryView {
    pub key: Seq<u8>,
    pub value: OptionValueView,
}

impl View for ConfigEntry {
    type V = ConfigEntryView;

    open spec fn view(&self) -> ConfigEntryView {
        (ConfigEntryView { key: self.key@, value: self.value@ })
    }
}

/// The views of a configuration.
pub open spec fn cfg_views(cfg: Seq<ConfigEntry>) -> Seq<ConfigEntryView> {
    cfg.map_values(|e: ConfigEntry| e@)
}

/// The rendered text of a value: `true`/`false`, the string itself, the
/// signed decimal, or `[item,item,...]`.
pub open spec fn spec_render(v: OptionValueView) -> Seq<u8> {
    match v {
        OptionValueView::Bool(b) => if b {
            "true".spec_bytes()
        } else {
            "false".spec_bytes()
        },
        OptionValueView::Str(s) => s,
        OptionValueView::Int(n) => spec_render_int(n),
        OptionValueView::List(items) => seq![91u8] + spec_join_commas(items) + seq![93u8],
    }
}

pub open spec fn spec_render_int(n: int) -> Seq<u8> {
    if n < 0 {
        seq![45u8] + bytes::spec_decimal((-n) as nat)
    } else {
        bytes::spec_decimal(n as nat)
    }
}

/// Items joined by commas.
pub open spec fn spec_join_commas(items: Seq<Seq<u8>>) -> Seq<u8>
    decreases items.len(),
{
    if items.len() == 0 {
        Seq::empty()
    } else if items.len() == 1 {
        items[0]
    } else {
        items[0] + seq![44u8] + spec_join_commas(items.drop_first())
    }
}

proof fn lemma_join_commas_snoc(items: Seq<Seq<u8>>, x: Seq<u8>)
    ensures
        items.len() == 0 ==> spec_join_commas(items.push(x)) == x,
        items.len() > 0 ==> spec_join_commas(items.push(x)) == spec_join_commas(items)
            + seq![44u8] + x,
    decreases items.len(),
{
    if items.len() == 0 {
        assert(items.push(x)[0] == x);
        assert(items.push(x).len() == 1);
    } else {
        assert(items.push(x)[0] == items[0]);
        assert(items.push(x).drop_first() =~= items.drop_first().push(x));
        lemma_join_commas_snoc(items.drop_first(), x);
        if items.len() == 1 {
            assert(spec_join_commas(items) == items[0]);
        } else {
            assert(items[0] + seq![44u8] + (spec_join_commas(items.drop_first()) + seq![44u8] + x)
                =~= (items[0] + seq![44u8] + spec_join_commas(items.drop_first())) + seq![44u8]
                + x);
        }
    }
}

/// Renders a value as status text.
pub fn render_value(v: &OptionValue) -> (r: Vec<u8>)
    ensures
        r@ == spec_render(v@),
{
    let mut r: Vec<u8> = Vec::new();
    match v {
        OptionValue::Bool(b) => {
            if *b {
                bytes::extend_str(&mut r, "true");
            } else {
                bytes::extend_str(&mut r, "false");
            }
            assert(r@ =~= spec_render(v@));
        },
        OptionValue::Str(s) => {
            bytes::extend(&mut r, s.as_slice());
            assert(r@ =~= spec_render(v@));
        },
        OptionValue::Int(n) => {
            let m: u64 = if *n < 0 {
                if *n == i64::MIN {
                    9223372036854775808u64
                } else {
                    (-*n) as u64
                }
            } else {
                *n as u64
            };
            if *n < 0 {
                r.push(45);
            }
            let d = bytes::decimal_u64(m);
            bytes::extend(&mut r, d.as_slice());
            assert(r@ =~= spec_render(v@));
        },
        OptionValue::List(items) => {
            r.push(91);
            let ghost iv = word_views(items@);
            let mut i: usize = 0;
            assert(iv.take(0int) =~= Seq::<Seq<u8>>::empty());
            while i < items.len()
                invariant
                    0 <= i <= items@.len(),
                    iv == word_views(items@),
                    iv.len() == items@.len(),
                    r@ == seq![91u8] + spec_join_commas(iv.take(i as int)),
                decreases items@.len() - i,
            {
                proof {
                    assert(iv.take(i + 1) =~= iv.take(i as int).push(iv[i as int]));
                    lemma_join_commas_snoc(iv.take(i as int), iv[i as int]);
                    assert(iv[i as int] == items@[i as int]@);
                }
                if i > 0 {
                    r.push(44);
                }
                bytes::extend(&mut r, items[i].as_slice());
                assert(r@ =~= seq![91u8] + spec_join_commas(iv.take(i + 1)));
                i += 1;
            }
            assert(iv.take(items@.len() as int) =~= iv);
            r.push(93);
            assert(r@ =~= spec_render(v@));
        },
    }
    r
}

/// Splitting the inside of a list literal at commas: the items collected
/// so far and the item in progress.
pub open spec fn comma_run(s: Seq<u8>) -> (Seq<Seq<u8>>, Seq<u8>)
    decreases s.len(),
{
    if s.len() == 0 {
        (Seq::empty(), Seq::empty())
    } else {
        let (items, cur) = comma_run(s.drop_last());
        if s.last() == 44 {
            (items.push(cur), Seq::empty())
        } else {
            (items, cur.push(s.last()))
        }
    }
}

/// The items of a list literal's inside: empty text means no items.
pub open spec fn spec_list_items(inner: Seq<u8>) -> Seq<Seq<u8>> {
    if inner.len() == 0 {
        Seq::empty()
    } else {
        comma_run(inner).0.push(comma_run(inner).1)
    }
}

/// A list literal and its items: `[` inside `]`.
pub open spec fn spec_parse_list(w: Seq<u8>) -> Option<Seq<Seq<u8>>> {
    if w.len() >= 2 && w[0] == 91 && w.last() == 93 {
        Some(spec_list_items(w.subrange(1, w.len() - 1)))
    } else {
        None
    }
}

/// Parses a list literal `[item,item,...]`.
pub fn parse_list(w: &[u8]) -> (r: Option<Vec<Vec<u8>>>)
    ensures
        match spec_parse_list(w@) {
            Some(items) => r matches Some(v) && word_views(v@) == items,
            None => r is None,
        },
{
    if w.len() < 2 || w[0] != 91 || w[w.len() - 1] != 93 {
        return None;
    }
    let n: usize = w.len() - 1;
    let ghost inner = w@.subrange(1, w@.len() - 1);
    if n == 1 {
        assert(inner.len() == 0);
        let v: Vec<Vec<u8>> = Vec::new();
        assert(word_views(v@) =~= Seq::<Seq<u8>>::empty());
        return Some(v);
    }
    let mut items: Vec<Vec<u8>> = Vec::new();
    let mut cur: Vec<u8> = Vec::new();
    let mut i: usize = 1;
    proof {
        assert(inner.take(0int) =~= Seq::<u8>::empty());
        assert(comma_run(inner.take(0int)) == (Seq::<Seq<u8>>::empty(), Seq::<u8>::empty()));
    }
    while i < n
        invariant
            1 <= i <= n,
            n == w@.len() - 1,
            n >= 2,
            inner == w@.subrange(1, w@.len() - 1),
            inner.len() == n - 1,
            comma_run(inner.take(i - 1)) == (word_views(items@), cur@),
        decreases n - i,
    {
        proof {
            assert(inner.take(i as int).drop_last() =~= inner.take(i - 1));
            assert(inner.take(i as int).last() == inner[i - 1]);
            assert(inner[i - 1] == w@[i as int]);
        }
        let b: u8 = w[i];
        if b == 44 {
            let ghost pre = word_views(items@);
            items.push(cur);
            cur = Vec::new();
            assert(word_views(items@) =~= pre.push(comma_run(inner.take(i - 1)).1));
        } else {
            cur.push(b);
        }
        i += 1;
        assert(comma_run(inner.take(i - 1)) == (word_views(items@), cur@));
    }
    proof {
        assert(inner.take(n - 1) =~= inner);
    }
    let ghost pre = word_views(items@);
    items.push(cur);
    proof {
        assert(word_views(items@) =~= pre.push(comma_run(inner).1));
        assert(word_views(items@) =~= spec_list_items(inner));
    }
    Some(items)
}

/// The status text for an unknown configuration key.
pub open spec fn spec_unknown_key_message(key: Seq<u8>) -> Seq<u8> {
    "Unknown key `".spec_bytes() + key + "`".spec_bytes()
}

fn unknown_key_message(key: &[u8]) -> (r: Vec<u8>)
    ensures
        r@ == spec_unknown_key_message(key@),
{
    let mut r: Vec<u8> = Vec::new();
    bytes::extend_str(&mut r, "Unknown key `");
    bytes::extend(&mut r, key);
    bytes::extend_str(&mut r, "`");
    assert(r@ =~= spec_unknown_key_message(key@));
    r
}

/// The status text for a field that does not parse as the option's kind.
pub open spec fn spec_parse_field_message(field: Seq<u8>) -> Seq<u8> {
    "Could not parse field `".spec_bytes() + field + "`".spec_bytes()
}

fn parse_field_message(field: &[u8]) -> (r: Vec<u8>)
    ensures
        r@ == spec_parse_field_message(field@),
{
    let mut r: Vec<u8> = Vec::new();
    bytes::extend_str(&mut r, "Could not parse field `");
    bytes::extend(&mut r, field);
    bytes::extend_str(&mut r, "`");
    assert(r@ =~= spec_parse_field_message(field@));
    r
}

/// The value a field text denotes for the kind of the current value, or
/// nothing when it does not parse (an integer must also fit the machine).
pub open spec fn spec_set_value(cur: OptionValueView, field: Seq<u8>) -> Option<OptionValueView> {
    match cur {
        OptionValueView::Bool(_) => if field == "true".spec_bytes() {
            Some(OptionValueView::Bool(true))
        } else if field == "false".spec_bytes() {
            Some(OptionValueView::Bool(false))
        } else {
            None
        },
        OptionValueView::Str(_) => Some(OptionValueView::Str(field)),
        OptionValueView::Int(_) => if bytes::is_int_literal(field) && bytes::spec_int_magnitude(
            field,
        ) <= i64::MAX && bytes::spec_int_magnitude(field) <= usize::MAX {
            Some(OptionValueView::Int(bytes::spec_int_value(field)))
        } else {
            None
        },
        OptionValueView::List(_) => match spec_parse_list(field) {
            Some(items) => Some(OptionValueView::List(items)),
            None => None,
        },
    }
}

/// Shows the value of a configuration option.
pub fn get_option(editor: &crate::editor::Editor, key: &[u8]) -> (r: Result<Vec<u8>, Vec<u8>>)
    ensures
        ({
            let lk = bytes::spec_lower(key@);
            match spec_find_key(editor.config@, lk) {
                Some(k) => r matches Ok(v) && v@ == spec_render(editor.config@[k].value@),
                None => r matches Err(m) && m@ == spec_unknown_key_message(lk),
            }
        }),
{
    let lk = bytes::to_ascii_lower(key);
    match find_key(&editor.config, lk.as_slice()) {
        Some(k) => {
            proof {
                lemma_find_key(editor.config@, lk@);
            }
            Ok(render_value(&editor.config[k].value))
        },
        None => Err(unknown_key_message(lk.as_slice())),
    }
}

/// Sets a configuration option from field text, parsed according to the
/// option's kind. On success the option holds exactly the denoted value;
/// an unknown key or an unparsable field changes nothing.
pub fn set_option(editor: &mut crate::editor::Editor, key: &[u8], field: &[u8]) -> (r: Result<
    (),
    Vec<u8>,
>)
    ensures
        final(editor).documents == old(editor).documents,
        final(editor).views == old(editor).views,
        final(editor).focused == old(editor).focused,
        final(editor).last_selection == old(editor).last_selection,
        final(editor).next_doc_id == old(editor).next_doc_id,
        final(editor).exit_code == old(editor).exit_code,
        ({
            let lk = bytes::spec_lower(key@);
            match spec_find_key(old(editor).config@, lk) {
                None => r matches Err(m) && m@ == spec_unknown_key_message(lk) && final(editor).config == old(editor).config,
                Some(k) => match spec_set_value(old(editor).config@[k].value@, field@) {
                    Some(v) => r is Ok && cfg_views(final(editor).config@) == cfg_views(
                        old(editor).config@,
                    ).update(k, (ConfigEntryView { key: old(editor).config@[k].key@, value: v })),
                    None => r matches Err(m) && m@ == spec_parse_field_message(field@) && final(editor).config == old(editor).config,
                },
            }
        }),
{
    let lk = bytes::to_ascii_lower(key);
    let k: usize = match find_key(&editor.config, lk.as_slice()) {
        Some(k) => k,
        None => {
            return Err(unknown_key_message(lk.as_slice()));
        },
    };
    proof {
        lemma_find_key(editor.config@, lk@);
    }
    let ghost cur_view = editor.config@[k as int].value@;
    let new_value: OptionValue = match &editor.config[k].value {
        OptionValue::Bool(_) => {
            if bytes::bytes_eq(field, "true".as_bytes()) {
                let nv = OptionValue::Bool(true);
                assert(nv@ == spec_set_value(cur_view, field@)->Some_0);
                nv
            } else if bytes::bytes_eq(field, "false".as_bytes()) {
                let nv = OptionValue::Bool(false);
                assert(nv@ == spec_set_value(cur_view, field@)->Some_0);
                nv
            } else {
                return Err(parse_field_message(field));
            }
        },
        OptionValue::Str(_) => {
            let nv = OptionValue::Str(bytes::to_vec(field));
            assert(nv@ == spec_set_value(cur_view, field@)->Some_0);
            nv
        },
        OptionValue::Int(_) => {
            match bytes::parse_i64(field) {
                Some(n) => {
                    let nv = OptionValue::Int(n);
                    assert(nv@ == spec_set_value(cur_view, field@)->Some_0);
                    nv
                },
                None => {
                    return Err(parse_field_message(field));
                },
            }
        },
        OptionValue::List(_) => {
            match parse_list(field) {
                Some(items) => {
                    let nv = OptionValue::List(items);
                    assert(nv@ == spec_set_value(cur_view, field@)->Some_0);
                    nv
                },
                None => {
                    return Err(parse_field_message(field));
                },
            }
        },
    };
    assert(new_value@ == spec_set_value(cur_view, field@)->Some_0);
    assert(spec_set_value(cur_view, field@) is Some);
    let key_copy: Vec<u8> = bytes::to_vec(editor.config[k].key.as_slice());
    let ghost old_cfg = editor.config@;
    editor.config.set(k, ConfigEntry { key: key_copy, value: new_value });
    proof {
        assert(cfg_views(editor.config@) =~= cfg_views(old_cfg).update(
            k as int,
            (ConfigEntryView {
                key: old_cfg[k as int].key@,
                value: spec_set_value(old_cfg[k as int].value@, field@)->Some_0,
            }),
        ));
    }
    Ok(())
}

/// Index of the first candidate equal to `x`.
pub open spec fn spec_first_index(s: Seq<Seq<u8>>, x: Seq<u8>) -> Option<int>
    decreases s.len(),
{
    if s.len() == 0 {
        None
    } else if s[0] == x {
        Some(0int)
    } else {
        match spec_first_index(s.drop_first(), x) {
            Some(k) => Some(k + 1),
            None => None,
        }
    }
}

/// The next candidate in a cycle: the one after the first occurrence of
/// the current value, or the first candidate when the current value is
/// absent or last.
pub open spec fn spec_cycle(cands: Seq<Seq<u8>>, cur: Seq<u8>) -> Seq<u8>
    recommends
        cands.len() > 0,
{
    match spec_first_index(cands, cur) {
        Some(i) => if i + 1 < cands.len() {
            cands[i + 1]
        } else {
            cands[0]
        },
        None => cands[0],
    }
}

proof fn lemma_first_index(s: Seq<Seq<u8>>, x: Seq<u8>)
    ensures
        spec_first_index(s, x) matches Some(k) ==> 0 <= k < s.len(),
    decreases s.len(),
{
    if s.len() > 0 && !(s[0] == x) {
        lemma_first_index(s.drop_first(), x);
    }
}

/// Picks the cycle successor of `cur` among the words after the key.
fn cycle_candidates(args: &crate::args::Args, cur: &[u8]) -> (r: Vec<u8>)
    requires
        args@.positionals.len() >= 2,
    ensures
        r@ == spec_cycle(args@.positionals.skip(1), cur@),
{
    let ghost cands = args@.positionals.skip(1);
    let n: usize = args.len();
    let mut i: usize = 1;
    assert(cands.skip(0int) =~= cands);
    while i < n
        invariant
            1 <= i <= n,
            n == args@.positionals.len(),
            cands == args@.positionals.skip(1),
            spec_first_index(cands, cur@) == (match spec_first_index(
                cands.skip(i - 1),
                cur@,
            ) {
                Some(k) => Some(k + (i - 1)),
                None => None::<int>,
            }),
        decreases n - i,
    {
        proof {
            assert(cands.skip(i - 1)[0] == cands[i - 1]);
            assert(cands[i - 1] == args@.positionals[i as int]);
            assert(cands.skip(i - 1).drop_first() =~= cands.skip(i as int));
        }
        if bytes::bytes_eq(args.get(i).as_slice(), cur) {
            if i + 1 < n {
                assert(args@.positionals[i + 1] == cands[i as int]);
                return bytes::to_vec(args.get(i + 1).as_slice());
            } else {
                assert(args@.positionals[1] == cands[0]);
                return bytes::to_vec(args.get(1).as_slice());
            }
        }
        i += 1;
    }
    proof {
        assert(cands.skip(n - 1) =~= Seq::<Seq<u8>>::empty());
        assert(args@.positionals[1] == cands[0]);
    }
    bytes::to_vec(args.get(1).as_slice())
}

/// Element-wise equality of two lists of byte strings.
fn lists_eq(a: &Vec<Vec<u8>>, b: &Vec<Vec<u8>>) -> (r: bool)
    ensures
        r == (word_views(a@) == word_views(b@)),
{
    if a.len() != b.len() {
        assert(word_views(a@).len() != word_views(b@).len());
        return false;
    }
    let mut i: usize = 0;
    while i < a.len()
        invariant
            0 <= i <= a@.len(),
            a@.len() == b@.len(),
            forall|j: int| 0 <= j < i ==> word_views(a@)[j] == word_views(b@)[j],
        decreases a@.len() - i,
    {
        assert(word_views(a@)[i as int] == a@[i as int]@);
        assert(word_views(b@)[i as int] == b@[i as int]@);
        if !bytes::bytes_eq(a[i].as_slice(), b[i].as_slice()) {
            return false;
        }
        i += 1;
    }
    assert(word_views(a@) =~= word_views(b@));
    true
}

/// The toggled value, or the error text when the arguments do not fit the
/// kind of the current value.
pub open spec fn spec_toggle(cur: OptionValueView, pos: Seq<Seq<u8>>) -> Result<
    OptionValueView,
    Seq<u8>,
>
    recommends
        pos.len() >= 1,
{
    match cur {
        OptionValueView::Bool(b) => if pos.len() == 1 {
            Ok(OptionValueView::Bool(!b))
        } else {
            Err("Bad arguments. For boolean configurations use: `:toggle key`".spec_bytes())
        },
        OptionValueView::Str(s) => if pos.len() >= 3 {
            Ok(OptionValueView::Str(spec_cycle(pos.skip(1), s)))
        } else {
            Err(
                "Bad arguments. For string configurations use: `:toggle key val1 val2 ...`".spec_bytes(),
            )
        },
        OptionValueView::Int(n) => if pos.len() >= 3 {
            let sel = spec_cycle(pos.skip(1), spec_render_int(n));
            if bytes::is_int_literal(sel) && bytes::spec_int_magnitude(sel) <= i64::MAX
                && bytes::spec_int_magnitude(sel) <= usize::MAX {
                Ok(OptionValueView::Int(bytes::spec_int_value(sel)))
            } else {
                Err(spec_parse_field_message(sel))
            }
        } else {
            Err(
                "Bad arguments. For number configurations use: `:toggle key val1 val2 ...`".spec_bytes(),
            )
        },
        OptionValueView::List(items) => if pos.len() >= 3 {
            match (spec_parse_list(pos[1]), spec_parse_list(pos[2])) {
                (Some(first), Some(second)) => Ok(
                    OptionValueView::List(
                        if items == first {
                            second
                        } else {
                            first
                        },
                    ),
                ),
                _ => Err("values must be lists".spec_bytes()),
            }
        } else {
            Err(
                "Bad arguments. For list configurations use: `:toggle key [...] [...]`".spec_bytes(),
            )
        },
    }
}

/// Toggles a configuration option: a boolean negates; a string or number
/// cycles through the candidate values given after the key; a list swaps
/// between exactly two candidate lists by structural equality. On success
/// the rendered new value is returned for the status line.
pub fn toggle_option(editor: &mut crate::editor::Editor, args: &crate::args::Args) -> (r: Result<
    Vec<u8>,
    Vec<u8>,
>)
    requires
        args@.positionals.len() >= 1,
    ensures
        final(editor).documents == old(editor).documents,
        final(editor).views == old(editor).views,
        final(editor).focused == old(editor).focused,
        final(editor).last_selection == old(editor).last_selection,
        final(editor).next_doc_id == old(editor).next_doc_id,
        final(editor).exit_code == old(editor).exit_code,
        ({
            let lk = bytes::spec_lower(args@.positionals[0]);
            match spec_find_key(old(editor).config@, lk) {
                None => r matches Err(m) && m@ == spec_unknown_key_message(lk) && final(editor).config == old(editor).config,
                Some(k) => match spec_toggle(old(editor).config@[k].value@, args@.positionals) {
                    Ok(v) => r matches Ok(st) && st@ == spec_render(v) && cfg_views(
                        final(editor).config@,
                    ) == cfg_views(old(editor).config@).update(
                        k,
                        (ConfigEntryView { key: old(editor).config@[k].key@, value: v }),
                    ),
                    Err(m) => r matches Err(e) && e@ == m && final(editor).config == old(editor).config,
                },
            }
        }),
{
    let lk = bytes::to_ascii_lower(args.get(0).as_slice());
    let k: usize = match find_key(&editor.config, lk.as_slice()) {
        Some(k) => k,
        None => {
            return Err(unknown_key_message(lk.as_slice()));
        },
    };
    proof {
        lemma_find_key(editor.config@, lk@);
    }
    let n: usize = args.len();
    let ghost cur_view = editor.config@[k as int].value@;
    let ghost pos = args@.positionals;
    let new_value: OptionValue = match &editor.config[k].value {
        OptionValue::Bool(b) => {
            if n != 1 {
                let mut m: Vec<u8> = Vec::new();
                bytes::extend_str(&mut m, "Bad arguments. For boolean configurations use: `:toggle key`");
                assert(m@ =~= "Bad arguments. For boolean configurations use: `:toggle key`".spec_bytes());
                return Err(m);
            }
            let nv = OptionValue::Bool(!*b);
            assert(nv@ == spec_toggle(cur_view, pos)->Ok_0);
            nv
        },
        OptionValue::Str(_) => {
            if n < 3 {
                let mut m: Vec<u8> = Vec::new();
                bytes::extend_str(&mut m, "Bad arguments. For string configurations use: `:toggle key val1 val2 ...`");
                assert(m@ =~= "Bad arguments. For string configurations use: `:toggle key val1 val2 ...`".spec_bytes());
                return Err(m);
            }
            let cur: Vec<u8> = match &editor.config[k].value {
                OptionValue::Str(s) => bytes::to_vec(s.as_slice()),
                _ => Vec::new(),
            };
            let nv = OptionValue::Str(cycle_candidates(args, cur.as_slice()));
            assert(nv@ == spec_toggle(cur_view, pos)->Ok_0);
            nv
        },
        OptionValue::Int(_) => {
            if n < 3 {
                let mut m: Vec<u8> = Vec::new();
                bytes::extend_str(&mut m, "Bad arguments. For number configurations use: `:toggle key val1 val2 ...`");
                assert(m@ =~= "Bad arguments. For number configurations use: `:toggle key val1 val2 ...`".spec_bytes());
                return Err(m);
            }
            let cur: Vec<u8> = render_value(&editor.config[k].value);
            let sel: Vec<u8> = cycle_candidates(args, cur.as_slice());
            match bytes::parse_i64(sel.as_slice()) {
                Some(v) => {
                    let nv = OptionValue::Int(v);
                    assert(nv@ == spec_toggle(cur_view, pos)->Ok_0);
                    nv
                },
                None => {
                    return Err(parse_field_message(sel.as_slice()));
                },
            }
        },
        OptionValue::List(_) => {
            if n < 3 {
                let mut m: Vec<u8> = Vec::new();
                bytes::extend_str(&mut m, "Bad arguments. For list configurations use: `:toggle key [...] [...]`");
                assert(m@ =~= "Bad arguments. For list configurations use: `:toggle key [...] [...]`".spec_bytes());
                return Err(m);
            }
            let first: Option<Vec<Vec<u8>>> = parse_list(args.get(1).as_slice());
            let second: Option<Vec<Vec<u8>>> = parse_list(args.get(2).as_slice());
            match (first, second) {
                (Some(a), Some(b)) => {
                    let swap: bool = match &editor.config[k].value {
                        OptionValue::List(items) => lists_eq(items, &a),
                        _ => false,
                    };
                    let nv = if swap {
                        OptionValue::List(b)
                    } else {
                        OptionValue::List(a)
                    };
                    assert(nv@ == spec_toggle(cur_view, pos)->Ok_0);
                    nv
                },
                _ => {
                    let mut m: Vec<u8> = Vec::new();
                    bytes::extend_str(&mut m, "values must be lists");
                    assert(m@ =~= "values must be lists".spec_bytes());
                    return Err(m);
                },
            }
        },
    };
    assert(new_value@ == spec_toggle(cur_view, pos)->Ok_0);
    assert(spec_toggle(cur_view, pos) is Ok);
    let status: Vec<u8> = render_value(&new_value);
    let key_copy: Vec<u8> = bytes::to_vec(editor.config[k].key.as_slice());
    let ghost old_cfg = editor.config@;
    editor.config.set(k, ConfigEntry { key: key_copy, value: new_value });
    proof {
        assert(cfg_views(editor.config@) =~= cfg_views(old_cfg).update(
            k as int,
            (ConfigEntryView {
                key: old_cfg[k as int].key@,
                value: spec_toggle(old_cfg[k as int].value@, args@.positionals)->Ok_0,
            }),
        ));
    }
    Ok(status)
}

} // verus!
