use vstd::prelude::*;

use crate::config::Config;
use crate::decimal::{
    dec_digits, lemma_dec_digits_parse_back, lemma_digits_val_nonneg, parse_u64, render_u64,
    uint_text_val, valid_uint_text,
};
use crate::text::{is_space, spec_trim, trim, trim_back, trim_front};

verus! {

/// The radio address scanned when none is chosen: the broadcast address,
/// five bytes of 0xE7.
pub fn default_scan_address() -> (r: [u8; 5])
    ensures
        r@ == seq![0xe7u8, 0xe7u8, 0xe7u8, 0xe7u8, 0xe7u8],
{
    let r = [0xe7u8; 5];
    proof {
        assert(r@ =~= seq![0xe7u8, 0xe7u8, 0xe7u8, 0xe7u8, 0xe7u8]);
    }
    r
}

/// The lines the scan command prints: one `> ` line per address found,
/// in discovery order. An empty scan prints nothing.
pub fn scan_report(results: &Vec<String>) -> (r: Vec<String>)
    ensures
        r@.len() == results@.len(),
        forall|i: int| 0 <= i < r@.len() ==> #[trigger] r@[i]@ == "> "@ + results@[i]@,
{
    let mut r: Vec<String> = Vec::new();
    let mut i: usize = 0;
    while i < results.len()
        invariant
            0 <= i <= results@.len(),
            r@.len() == i,
            forall|j: int| 0 <= j < i ==> #[trigger] r@[j]@ == "> "@ + results@[j]@,
        decreases results@.len() - i,
    {
        let mut line = "> ".to_owned();
        line.append(results[i].as_str());
        r.push(line);
        i = i + 1;
    }
    r
}

/// The menu the selection command shows: each address on one line,
/// prefixed by its index in brackets; or nothing when the scan found no
/// device, which the caller must report instead of prompting.
pub fn select_menu(results: &Vec<String>) -> (r: Option<Vec<String>>)
    ensures
        r is Some <==> results@.len() > 0,
        r matches Some(menu) ==> {
            &&& menu@.len() == results@.len()
            &&& forall|i: int|
                0 <= i < menu@.len() ==> #[trigger] menu@[i]@ == "["@ + dec_digits(i) + "] "@
                    + results@[i]@
        },
{
    if results.len() == 0 {
        return None;
    }
    let mut menu: Vec<String> = Vec::new();
    let mut i: usize = 0;
    while i < results.len()
        invariant
            0 <= i <= results@.len(),
            menu@.len() == i,
            forall|j: int|
                0 <= j < i ==> #[trigger] menu@[j]@ == "["@ + dec_digits(j) + "] "@
                    + results@[j]@,
        decreases results@.len() - i,
    {
        let mut line = "[".to_owned();
        let idx = render_u64(i as u64);
        line.append(idx.as_str());
        line.append("] ");
        line.append(results[i].as_str());
        proof {
            assert(line@ =~= "["@ + dec_digits(i as int) + "] "@ + results@[i as int]@);
        }
        menu.push(line);
        i = i + 1;
    }
    Some(menu)
}

/// What one line of interactive input does to the selection: it either
/// chooses a valid index, or is rejected as not a number, or as an index
/// outside the scanned set. Rejection never chooses anything; the caller
/// prompts again.
#[derive(Clone, Copy, PartialEq, Eq, Structural, Debug)]
pub enum SelectStep {
    Chosen(usize),
    OutOfRange,
    NotANumber,
}

/// The decision taken on one line of input when `count` devices were
/// scanned: the line is trimmed and must parse as a non-negative decimal
/// index strictly below `count`.
pub open spec fn spec_select_step(input: Seq<char>, count: int) -> SelectStep {
    let t = spec_trim(input);
    if !(valid_uint_text(t) && uint_text_val(t) <= usize::MAX) {
        SelectStep::NotANumber
    } else if uint_text_val(t) < count {
        SelectStep::Chosen(uint_text_val(t) as usize)
    } else {
        SelectStep::OutOfRange
    }
}

/// Decide what one line of interactive input selects among the scanned
/// addresses.
pub fn select_step(results: &Vec<String>, input: &str) -> (r: SelectStep)
    ensures
        r == spec_select_step(input@, results@.len() as int),
        r matches SelectStep::Chosen(i) ==> i < results@.len(),
{
    let t = trim(input);
    match parse_u64(t) {
        Some(v) => {
            if v <= usize::MAX as u64 {
                let idx = v as usize;
                if idx < results.len() {
                    SelectStep::Chosen(idx)
                } else {
                    SelectStep::OutOfRange
                }
            } else {
                SelectStep::NotANumber
            }
        },
        None => SelectStep::NotANumber,
    }
}

/// Record the chosen address: the `uri` field of the configuration
/// becomes the chosen scan result, verbatim, and every other field keeps
/// its value. Returns the address so the caller can echo and persist it.
pub fn select_apply(config: &mut Config, results: &Vec<String>, i: usize) -> (uri: String)
    requires
        i < results@.len(),
    ensures
        uri@ == results@[i as int]@,
        final(config).uri@ == results@[i as int]@,
        final(config).cache == old(config).cache,
        final(config).auto_complete_cache == old(config).auto_complete_cache,
{
    let uri = results[i].clone();
    let copy = uri.clone();
    config.set_uri(copy);
    uri
}

/// A chosen index always lies inside the scanned set, so the address
/// recorded after a successful selection is one of the scanned addresses
/// and never an invented or transformed one.
pub proof fn lemma_chosen_index_in_range(input: Seq<char>, count: int)
    ensures
        spec_select_step(input, count) matches SelectStep::Chosen(i) ==> 0 <= i < count,
{
    let t = spec_trim(input);
    if valid_uint_text(t) {
        if t.len() > 0 && t[0] == '+' {
            lemma_digits_val_nonneg(t.skip(1));
        } else {
            lemma_digits_val_nonneg(t);
        }
    }
}

/// Typing the very index shown in the menu chooses it: for every valid
/// index, the decimal text the menu renders for it is accepted and
/// selects that index, so every scanned address can be chosen.
pub proof fn lemma_typing_an_index_chooses_it(i: int, count: int)
    requires
        0 <= i < count,
        i <= usize::MAX,
    ensures
        spec_select_step(dec_digits(i), count) == SelectStep::Chosen(i as usize),
{
    lemma_dec_digits_parse_back(i);
    let s = dec_digits(i);
    assert(!is_space(s[0]));
    assert(!is_space(s.last()));
    assert(trim_front(s) == s);
    assert(trim_back(s) == s);
    assert(s[0] != '+');
}

/// Input that is not a number, or that names an index at or beyond the
/// scanned count, never chooses a device: the selection state is
/// unchanged and the prompt is repeated.
pub proof fn lemma_invalid_input_selects_nothing(input: Seq<char>, count: int)
    requires
        !({
            let t = spec_trim(input);
            valid_uint_text(t) && uint_text_val(t) < count
        }),
    ensures
        !(spec_select_step(input, count) is Chosen),
{
}

/// With an empty scan result set there is no valid index at all: every
/// line of input is rejected, so the caller must report that no device
/// was found instead of prompting.
pub proof fn lemma_empty_scan_accepts_nothing(input: Seq<char>)
    ensures
        !(spec_select_step(input, 0) is Chosen),
{
    lemma_chosen_index_in_range(input, 0);
}

} // verus!
