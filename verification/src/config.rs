use vstd::prelude::*;
use crate::errors::JoyError;
use crate::joystick::Joystick;

verus! {

// The configuration file is a structured text document with one recognized
// field: `buttons`, an array of exactly eight integers, each a GPIO pin
// number in 0..=255, in the fixed button order. Whitespace (spaces, tabs,
// carriage returns, newlines) may stand around every token. The grammar is
// given by the spec functions below; the parser is proved to decide it.
/// Space, tab, carriage return or line feed.
pub open spec fn is_ws(b: u8) -> bool {
    b == 32 || b == 9 || b == 13 || b == 10
}

/// An ASCII decimal digit.
pub open spec fn is_digit(b: u8) -> bool {
    48 <= b && b <= 57
}

/// The first position at or after `i` that does not hold whitespace.
pub open spec fn spec_skip_ws(s: Seq<u8>, i: int) -> int
    decreases s.len() - i,
{
    if 0 <= i < s.len() && is_ws(s[i]) {
        spec_skip_ws(s, i + 1)
    } else {
        i
    }
}

/// The first position at or after `i` that does not hold a digit.
pub open spec fn spec_digits_end(s: Seq<u8>, i: int) -> int
    decreases s.len() - i,
{
    if 0 <= i < s.len() && is_digit(s[i]) {
        spec_digits_end(s, i + 1)
    } else {
        i
    }
}

/// The value of the digit run `s[i..j]`, read as a decimal number.
pub open spec fn spec_num_val(s: Seq<u8>, i: int, j: int) -> int
    decreases j - i,
{
    if i < j {
        spec_num_val(s, i, j - 1) * 10 + (s[j - 1] - 48)
    } else {
        0
    }
}

/// A pin number at position `i`: one to three decimal digits whose value is
/// at most 255. Yields the value and the position after the digits.
pub open spec fn spec_parse_num(s: Seq<u8>, i: int) -> Option<(u8, int)> {
    let j = spec_digits_end(s, i);
    if i < j && j - i <= 3 && spec_num_val(s, i, j) <= 255 {
        Some((spec_num_val(s, i, j) as u8, j))
    } else {
        None
    }
}

/// The field name `buttons` stands at position `i`.
pub open spec fn spec_keyword_at(s: Seq<u8>, i: int) -> bool {
    &&& 0 <= i
    &&& i + 7 <= s.len()
    &&& s[i] == 98
    &&& s[i + 1] == 117
    &&& s[i + 2] == 116
    &&& s[i + 3] == 116
    &&& s[i + 4] == 111
    &&& s[i + 5] == 110
    &&& s[i + 6] == 115
}

/// `k` further array entries starting at `i`, each a comma followed by a pin
/// number, with whitespace around the tokens. Yields the entries in order and
/// the position after the last one.
pub open spec fn spec_parse_tail(s: Seq<u8>, i: int, k: nat) -> Option<(Seq<u8>, int)>
    decreases k,
{
    if k == 0 {
        Some((Seq::<u8>::empty(), i))
    } else {
        let i1 = spec_skip_ws(s, i);
        if i1 < s.len() && s[i1] == 44 {
            let i2 = spec_skip_ws(s, i1 + 1);
            match spec_parse_num(s, i2) {
                Some(p) => match spec_parse_tail(s, p.1, (k - 1) as nat) {
                    Some(q) => Some((seq![p.0] + q.0, q.1)),
                    None => None,
                },
                None => None,
            }
        } else {
            None
        }
    }
}

/// The whole configuration document: `buttons = [ p0, ..., p7 ]` and nothing
/// else but whitespace. Yields the eight pin numbers in the order written.
pub open spec fn spec_parse_config(s: Seq<u8>) -> Option<Seq<u8>> {
    let i0 = spec_skip_ws(s, 0);
    if spec_keyword_at(s, i0) {
        let i1 = spec_skip_ws(s, i0 + 7);
        if i1 < s.len() && s[i1] == 61 {
            let i2 = spec_skip_ws(s, i1 + 1);
            if i2 < s.len() && s[i2] == 91 {
                let i3 = spec_skip_ws(s, i2 + 1);
                match spec_parse_num(s, i3) {
                    Some(p) => match spec_parse_tail(s, p.1, 7) {
                        Some(q) => {
                            let i6 = spec_skip_ws(s, q.1);
                            if i6 < s.len() && s[i6] == 93 && spec_skip_ws(s, i6 + 1) == s.len() {
                                Some(seq![p.0] + q.0)
                            } else {
                                None
                            }
                        },
                        None => None,
                    },
                    None => None,
                }
            } else {
                None
            }
        } else {
            None
        }
    } else {
        None
    }
}

fn is_ws_b(b: u8) -> (r: bool)
    ensures
        r == is_ws(b),
{
    b == 32 || b == 9 || b == 13 || b == 10
}

fn is_digit_b(b: u8) -> (r: bool)
    ensures
        r == is_digit(b),
{
    48 <= b && b <= 57
}

fn skip_ws(s: &Vec<u8>, start: usize) -> (r: usize)
    requires
        start <= s.len(),
    ensures
        r as int == spec_skip_ws(s@, start as int),
        start <= r <= s.len(),
{
    let mut i: usize = start;
    while i < s.len() && is_ws_b(s[i])
        invariant
            start <= i <= s.len(),
            spec_skip_ws(s@, start as int) == spec_skip_ws(s@, i as int),
        decreases s.len() - i,
    {
        i = i + 1;
    }
    i
}

fn scan_num(s: &Vec<u8>, start: usize) -> (r: Option<(u8, usize)>)
    requires
        start <= s.len(),
    ensures
        match r {
            Some(p) => {
                &&& spec_parse_num(s@, start as int) == Some((p.0, p.1 as int))
                &&& start < p.1 <= s.len()
            },
            None => spec_parse_num(s@, start as int) is None,
        },
{
    let mut end: usize = start;
    while end < s.len() && is_digit_b(s[end])
        invariant
            start <= end <= s.len(),
            spec_digits_end(s@, start as int) == spec_digits_end(s@, end as int),
            forall|j: int| start <= j < end ==> is_digit(s@[j]),
        decreases s.len() - end,
    {
        end = end + 1;
    }
    if end == start || end - start > 3 {
        return None;
    }
    let mut v: u32 = 0;
    let mut k: usize = start;
    while k < end
        invariant
            start <= k <= end,
            end <= s.len(),
            end - start <= 3,
            forall|j: int| start <= j < end ==> is_digit(s@[j]),
            v as int == spec_num_val(s@, start as int, k as int),
            k - start == 0 ==> v == 0,
            k - start == 1 ==> v < 10,
            k - start == 2 ==> v < 100,
            k - start == 3 ==> v < 1000,
        decreases end - k,
    {
        let d: u32 = (s[k] - 48) as u32;
        v = v * 10 + d;
        k = k + 1;
    }
    if v > 255 {
        return None;
    }
    Some((v as u8, end))
}

fn parse_tail(s: &Vec<u8>, start: usize, k: usize) -> (r: Option<(Vec<u8>, usize)>)
    requires
        start <= s.len(),
    ensures
        match r {
            Some(p) => {
                &&& spec_parse_tail(s@, start as int, k as nat) == Some((p.0@, p.1 as int))
                &&& start <= p.1 <= s.len()
                &&& p.0@.len() == k
            },
            None => spec_parse_tail(s@, start as int, k as nat) is None,
        },
    decreases k,
{
    if k == 0 {
        return Some((Vec::new(), start));
    }
    let i1 = skip_ws(s, start);
    if i1 >= s.len() || s[i1] != 44 {
        return None;
    }
    let i2 = skip_ws(s, i1 + 1);
    match scan_num(s, i2) {
        None => None,
        Some((v, i3)) => match parse_tail(s, i3, k - 1) {
            None => None,
            Some((tail, end)) => {
                let mut vs = tail;
                let mut out: Vec<u8> = Vec::new();
                out.push(v);
                out.append(&mut vs);
                proof {
                    assert(out@ =~= seq![v] + spec_parse_tail(s@, i3 as int, (k - 1) as nat)
                        .unwrap().0);
                }
                Some((out, end))
            },
        },
    }
}

/// The Configuration Loader's parsing step: deserialize the text of a
/// configuration file into a fresh `Joystick`. Succeeds exactly on documents
/// the grammar accepts, handing back their eight pin numbers in the order
/// written; every other document is rejected with `ConfigParseError`, before
/// any hardware is touched.
pub fn parse_config(text: &Vec<u8>) -> (r: Result<Joystick, JoyError>)
    ensures
        match r {
            Ok(j) => {
                &&& spec_parse_config(text@) == Some(j.buttons@)
                &&& j.is_fresh()
                &&& j.events_seq() == Seq::<crate::keys::KeyEvent>::empty()
            },
            Err(e) => {
                &&& spec_parse_config(text@) is None
                &&& e == JoyError::ConfigParseError
            },
        },
{
    let i0 = skip_ws(text, 0);
    if text.len() - i0 < 7 {
        return Err(JoyError::ConfigParseError);
    }
    if !(text[i0] == 98 && text[i0 + 1] == 117 && text[i0 + 2] == 116 && text[i0 + 3] == 116
        && text[i0 + 4] == 111 && text[i0 + 5] == 110 && text[i0 + 6] == 115) {
        return Err(JoyError::ConfigParseError);
    }
    let i1 = skip_ws(text, i0 + 7);
    if i1 >= text.len() || text[i1] != 61 {
        return Err(JoyError::ConfigParseError);
    }
    let i2 = skip_ws(text, i1 + 1);
    if i2 >= text.len() || text[i2] != 91 {
        return Err(JoyError::ConfigParseError);
    }
    let i3 = skip_ws(text, i2 + 1);
    let first = scan_num(text, i3);
    match first {
        None => Err(JoyError::ConfigParseError),
        Some((v0, i4)) => {
            match parse_tail(text, i4, 7) {
                None => Err(JoyError::ConfigParseError),
                Some((vs, i5)) => {
                    let i6 = skip_ws(text, i5);
                    if i6 >= text.len() || text[i6] != 93 {
                        return Err(JoyError::ConfigParseError);
                    }
                    let i7 = skip_ws(text, i6 + 1);
                    if i7 != text.len() {
                        return Err(JoyError::ConfigParseError);
                    }
                    let buttons: [u8; 8] = [v0, vs[0], vs[1], vs[2], vs[3], vs[4], vs[5], vs[6]];
                    proof {
                        assert(buttons@ =~= seq![v0] + vs@);
                    }
                    Ok(Joystick::new(buttons))
                },
            }
        },
    }
}

fn push_num(out: &mut Vec<u8>, v: u8)
    ensures
        final(out)@ == old(out)@ + spec_render_num(v as nat),
{
    if v >= 100 {
        let t: u8 = v / 10;
        out.push(48 + t / 10);
        out.push(48 + t % 10);
        out.push(48 + v % 10);
        proof {
            assert(spec_render_num((t / 10) as nat) =~= seq![(48 + (t / 10) as nat) as u8]);
            assert(spec_render_num(t as nat) =~= spec_render_num((t / 10) as nat) + seq![
                (48 + (t as nat % 10)) as u8,
            ]);
            assert(spec_render_num(v as nat) =~= spec_render_num(t as nat) + seq![
                (48 + (v as nat % 10)) as u8,
            ]);
            assert(out@ =~= old(out)@ + spec_render_num(v as nat));
        }
    } else if v >= 10 {
        out.push(48 + v / 10);
        out.push(48 + v % 10);
        proof {
            assert(spec_render_num((v / 10) as nat) =~= seq![(48 + (v / 10) as nat) as u8]);
            assert(spec_render_num(v as nat) =~= spec_render_num((v / 10) as nat) + seq![
                (48 + (v as nat % 10)) as u8,
            ]);
            assert(out@ =~= old(out)@ + spec_render_num(v as nat));
        }
    } else {
        out.push(48 + v);
        proof {
            assert(spec_render_num(v as nat) =~= seq![(48 + v as nat) as u8]);
            assert(out@ =~= old(out)@ + spec_render_num(v as nat));
        }
    }
}

/// The Configuration Loader's inverse: write a configuration as its canonical
/// text, `buttons = [p0, p1, ..., p7]` with a closing newline. Loading the
/// result hands back the same eight pins — `lemma_render_parse_round_trip`.
pub fn render_config(buttons: &[u8; 8]) -> (r: Vec<u8>)
    ensures
        r@ == spec_render_config(buttons@),
{
    let mut out: Vec<u8> = Vec::new();
    out.push(98);
    out.push(117);
    out.push(116);
    out.push(116);
    out.push(111);
    out.push(110);
    out.push(115);
    out.push(32);
    out.push(61);
    out.push(32);
    out.push(91);
    proof {
        assert(out@ =~= seq![98u8, 117u8, 116u8, 116u8, 111u8, 110u8, 115u8, 32u8, 61u8, 32u8,
            91u8,
        ]);
    }
    let ghost prefix = out@;
    let mut k: usize = 0;
    while k < 8
        invariant
            k <= 8,
            out@ + spec_render_items(buttons@, k as int) == prefix + spec_render_items(
                buttons@,
                0,
            ),
        decreases 8 - k,
    {
        let ghost before = out@;
        if k > 0 {
            out.push(44);
            out.push(32);
        }
        push_num(&mut out, buttons[k]);
        proof {
            let chunk = (if k == 0 {
                Seq::<u8>::empty()
            } else {
                seq![44u8, 32u8]
            }) + spec_render_num(buttons@[k as int] as nat);
            assert(out@ =~= before + chunk);
            assert(spec_render_items(buttons@, k as int) =~= chunk + spec_render_items(
                buttons@,
                k + 1,
            ));
            assert(out@ + spec_render_items(buttons@, k + 1) =~= before + spec_render_items(
                buttons@,
                k as int,
            ));
        }
        k = k + 1;
    }
    out.push(93);
    out.push(10);
    proof {
        assert(spec_render_items(buttons@, 8) =~= Seq::<u8>::empty());
        assert(out@ =~= spec_render_config(buttons@));
    }
    out
}

/// Every configuration the parser accepts names exactly eight pins, so a
/// document with fewer or more array entries is rejected before any hardware
/// call occurs.
pub proof fn lemma_config_has_eight_pins(s: Seq<u8>)
    ensures
        spec_parse_config(s) matches Some(l) ==> l.len() == 8,
{
    let i0 = spec_skip_ws(s, 0);
    if spec_keyword_at(s, i0) {
        let i1 = spec_skip_ws(s, i0 + 7);
        if i1 < s.len() && s[i1] == 61 {
            let i2 = spec_skip_ws(s, i1 + 1);
            if i2 < s.len() && s[i2] == 91 {
                let i3 = spec_skip_ws(s, i2 + 1);
                match spec_parse_num(s, i3) {
                    Some(p) => lemma_parse_tail_len(s, p.1, 7),
                    None => {},
                }
            }
        }
    }
}

/// The canonical decimal digits of `v`, most significant first, without
/// leading zeros.
pub open spec fn spec_render_num(v: nat) -> Seq<u8>
    decreases v,
{
    if v <= 9 {
        seq![(48 + v) as u8]
    } else {
        spec_render_num(v / 10) + seq![(48 + (v % 10)) as u8]
    }
}

/// The text of the array entries from position `k` on: the first entry bare,
/// every further one preceded by a comma and a space.
pub open spec fn spec_render_items(b: Seq<u8>, k: int) -> Seq<u8>
    decreases b.len() - k,
{
    if 0 <= k < b.len() {
        (if k == 0 {
            Seq::<u8>::empty()
        } else {
            seq![44u8, 32u8]
        }) + spec_render_num(b[k] as nat) + spec_render_items(b, k + 1)
    } else {
        Seq::<u8>::empty()
    }
}

/// The canonical text of a configuration:
/// `buttons = [p0, p1, ..., p7]` and a closing newline.
pub open spec fn spec_render_config(b: Seq<u8>) -> Seq<u8> {
    seq![98u8, 117u8, 116u8, 116u8, 111u8, 110u8, 115u8, 32u8, 61u8, 32u8, 91u8]
        + spec_render_items(b, 0) + seq![93u8, 10u8]
}

proof fn lemma_num_val_of_subrange(s: Seq<u8>, i: int, j: int, d: Seq<u8>)
    requires
        0 <= i <= j <= s.len(),
        d == s.subrange(i, j),
    ensures
        spec_num_val(s, i, j) == spec_num_val(d, 0, d.len() as int),
    decreases j - i,
{
    if i < j {
        assert(d.subrange(0, d.len() - 1) =~= s.subrange(i, j - 1));
        lemma_num_val_of_subrange(s, i, j - 1, d.subrange(0, d.len() - 1));
        lemma_num_val_of_subrange(d, 0, d.len() - 1, d.subrange(0, d.len() - 1));
        assert(d[d.len() - 1] == s[j - 1]);
    }
}

proof fn lemma_render_num_props(v: nat)
    ensures
        spec_render_num(v).len() >= 1,
        v <= 9 ==> spec_render_num(v).len() == 1,
        v <= 99 ==> spec_render_num(v).len() <= 2,
        v <= 255 ==> spec_render_num(v).len() <= 3,
        forall|m: int|
            0 <= m < spec_render_num(v).len() ==> is_digit(#[trigger] spec_render_num(v)[m]),
        spec_num_val(spec_render_num(v), 0, spec_render_num(v).len() as int) == v,
    decreases v,
{
    let d = spec_render_num(v);
    if v <= 9 {
        assert(spec_num_val(d, 0, 1) == spec_num_val(d, 0, 0) * 10 + (d[0] - 48));
    } else {
        lemma_render_num_props(v / 10);
        let p = spec_render_num(v / 10);
        assert(p =~= d.subrange(0, d.len() - 1));
        lemma_num_val_of_subrange(d, 0, d.len() - 1, p);
        assert(spec_num_val(d, 0, d.len() as int) == spec_num_val(d, 0, d.len() - 1) * 10 + (
        d[d.len() - 1] - 48));
        assert(v == (v / 10) * 10 + (v % 10)) by (nonlinear_arith);
    }
}

proof fn lemma_digits_end_run(s: Seq<u8>, i: int, j: int)
    requires
        0 <= i <= j <= s.len(),
        forall|m: int| i <= m < j ==> is_digit(#[trigger] s[m]),
        j == s.len() || !is_digit(s[j]),
    ensures
        spec_digits_end(s, i) == j,
    decreases j - i,
{
    if i < j {
        lemma_digits_end_run(s, i + 1, j);
    }
}

proof fn lemma_parse_rendered_num(s: Seq<u8>, i: int, v: u8)
    requires
        0 <= i,
        i + spec_render_num(v as nat).len() <= s.len(),
        s.subrange(i, i + spec_render_num(v as nat).len() as int) == spec_render_num(v as nat),
        i + spec_render_num(v as nat).len() == s.len() || !is_digit(
            s[i + spec_render_num(v as nat).len()],
        ),
    ensures
        spec_parse_num(s, i) == Some((v, i + spec_render_num(v as nat).len() as int)),
{
    let d = spec_render_num(v as nat);
    let j = i + d.len() as int;
    lemma_render_num_props(v as nat);
    assert forall|m: int| i <= m < j implies is_digit(#[trigger] s[m]) by {
        assert(s[m] == s.subrange(i, j)[m - i]);
    }
    lemma_digits_end_run(s, i, j);
    lemma_num_val_of_subrange(s, i, j, d);
}

proof fn lemma_parse_rendered_tail(s: Seq<u8>, b: Seq<u8>, i: int, k: int)
    requires
        b.len() == 8,
        1 <= k <= 8,
        0 <= i <= s.len(),
        s.subrange(i, s.len() as int) == spec_render_items(b, k) + seq![93u8, 10u8],
    ensures
        spec_parse_tail(s, i, (8 - k) as nat) == Some((b.subrange(k, 8), s.len() - 2)),
    decreases 8 - k,
{
    let tail = s.subrange(i, s.len() as int);
    if k == 8 {
        assert(spec_render_items(b, 8) =~= Seq::<u8>::empty());
        assert(tail =~= seq![93u8, 10u8]);
        assert(s.len() - i == 2);
        assert(b.subrange(8, 8) =~= Seq::<u8>::empty());
        assert(spec_parse_tail(s, i, 0) == Some((b.subrange(8, 8), s.len() - 2)));
    } else {
        let v = b[k];
        let d = spec_render_num(v as nat);
        lemma_render_num_props(v as nat);
        assert(spec_render_items(b, k) =~= seq![44u8, 32u8] + d + spec_render_items(b, k + 1));
        let items = spec_render_items(b, k);
        assert(items.len() == 2 + d.len() + spec_render_items(b, k + 1).len());
        assert(tail.len() == items.len() + 2);
        assert(s.len() == i + tail.len());
        assert(items[0] == 44);
        assert(items[1] == 32);
        assert(items[2] == d[0]);
        assert(s[i] == tail[0]);
        assert(s[i] == 44);
        assert(spec_skip_ws(s, i) == i);
        assert(s[i + 1] == tail[1]);
        assert(s[i + 1] == 32);
        assert(s[i + 2] == tail[2]);
        assert(s[i + 2] == d[0]);
        assert(is_digit(d[0]));
        assert(spec_skip_ws(s, i + 2) == i + 2);
        assert(spec_skip_ws(s, i + 1) == i + 2);
        let j = i + 2 + d.len() as int;
        assert forall|m: int| 0 <= m < d.len() implies s.subrange(i + 2, j)[m] == d[m] by {
            assert(s.subrange(i + 2, j)[m] == s[i + 2 + m]);
            assert(tail[2 + m] == s[i + 2 + m]);
            assert(tail[2 + m] == items[2 + m]);
            assert(items[2 + m] == d[m]);
        }
        assert(s.subrange(i + 2, j) =~= d);
        assert(tail[2 + d.len() as int] == s[j]);
        if k + 1 < 8 {
            assert(tail[2 + d.len() as int] == items[2 + d.len() as int]);
            assert(spec_render_items(b, k + 1) =~= seq![44u8, 32u8] + spec_render_num(
                b[k + 1] as nat,
            ) + spec_render_items(b, k + 2));
            assert(items[2 + d.len() as int] == spec_render_items(b, k + 1)[0]);
            assert(s[j] == 44);
        } else {
            assert(spec_render_items(b, k + 1) =~= Seq::<u8>::empty());
            assert(items.len() == 2 + d.len());
            assert(tail[2 + d.len() as int] == 93);
            assert(s[j] == 93);
        }
        assert(!is_digit(s[j]));
        lemma_parse_rendered_num(s, i + 2, v);
        let rest = spec_render_items(b, k + 1) + seq![93u8, 10u8];
        assert forall|m: int| 0 <= m < s.len() - j implies s.subrange(j, s.len() as int)[m]
            == rest[m] by {
            assert(s.subrange(j, s.len() as int)[m] == s[j + m]);
            assert(tail[2 + d.len() as int + m] == s[j + m]);
            if m < spec_render_items(b, k + 1).len() {
                assert(tail[2 + d.len() as int + m] == items[2 + d.len() as int + m]);
                assert(items[2 + d.len() as int + m] == spec_render_items(b, k + 1)[m]);
            } else {
                assert(tail[2 + d.len() as int + m] == seq![93u8, 10u8][2 + d.len() as int + m - items.len() as int]);
            }
        }
        assert(s.subrange(j, s.len() as int) =~= spec_render_items(b, k + 1) + seq![93u8, 10u8]);
        lemma_parse_rendered_tail(s, b, j, k + 1);
        assert(seq![v] + b.subrange(k + 1, 8) =~= b.subrange(k, 8));
    }
}

/// Writing a configuration and loading it back yields the same eight pins:
/// on every configuration the parser inverts the writer.
pub proof fn lemma_render_parse_round_trip(b: Seq<u8>)
    requires
        b.len() == 8,
    ensures
        spec_parse_config(spec_render_config(b)) == Some(b),
{
    let s = spec_render_config(b);
    let v0 = b[0];
    let d0 = spec_render_num(v0 as nat);
    lemma_render_num_props(v0 as nat);
    assert(spec_render_items(b, 0) =~= d0 + spec_render_items(b, 1));
    assert(spec_render_items(b, 1) =~= seq![44u8, 32u8] + spec_render_num(b[1] as nat)
        + spec_render_items(b, 2));
    assert(s[0] == 98 && s[1] == 117 && s[2] == 116 && s[3] == 116 && s[4] == 111 && s[5] == 110
        && s[6] == 115 && s[7] == 32 && s[8] == 61 && s[9] == 32 && s[10] == 91);
    assert(spec_skip_ws(s, 0) == 0);
    assert(spec_keyword_at(s, 0));
    assert(spec_skip_ws(s, 8) == 8);
    assert(spec_skip_ws(s, 7) == 8);
    assert(spec_skip_ws(s, 10) == 10);
    assert(spec_skip_ws(s, 9) == 10);
    assert(s[11] == d0[0]);
    assert(is_digit(d0[0]));
    assert(spec_skip_ws(s, 11) == 11);
    let j = 11 + d0.len() as int;
    assert(s.subrange(11, j) =~= d0);
    assert(s[j] == 44);
    assert(!is_digit(s[j]));
    lemma_parse_rendered_num(s, 11, v0);
    assert(s.subrange(j, s.len() as int) =~= spec_render_items(b, 1) + seq![93u8, 10u8]);
    lemma_parse_rendered_tail(s, b, j, 1);
    assert(s[s.len() - 2] == 93);
    assert(s[s.len() - 1] == 10);
    assert(spec_skip_ws(s, s.len() - 2) == s.len() - 2);
    assert(spec_skip_ws(s, s.len() as int) == s.len());
    assert(spec_skip_ws(s, s.len() - 1) == s.len());
    assert(seq![v0] + b.subrange(1, 8) =~= b);
}

proof fn lemma_parse_tail_len(s: Seq<u8>, i: int, k: nat)
    ensures
        spec_parse_tail(s, i, k) matches Some(p) ==> p.0.len() == k,
    decreases k,
{
    if k > 0 {
        let i1 = spec_skip_ws(s, i);
        if i1 < s.len() && s[i1] == 44 {
            let i2 = spec_skip_ws(s, i1 + 1);
            match spec_parse_num(s, i2) {
                Some(p) => lemma_parse_tail_len(s, p.1, (k - 1) as nat),
                None => {},
            }
        }
    }
}

} // verus!
