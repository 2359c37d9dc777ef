//! Header contents: title, thinking indicator, model name, token usage.

use vstd::prelude::*;

use crate::app_state::{App, MsgView};
use crate::chars::{decimal, push_char, push_decimal, str_chars, string_of};
use vstd::arithmetic::power2::{lemma2_to64, lemma2_to64_rest, lemma_pow2_pos, lemma_pow2_unfold, pow2};

verus! {

broadcast use vstd::string::group_string_axioms;

/// Title text for header (used for centering): the program's name, then " *" when the
/// conversation has unsaved changes, then a space.
pub fn title_text(app: &App, program: &str) -> (r: String)
    ensures
        r@ == if app.dirty {
            program@ + " * "@
        } else {
            program@ + " "@
        },
{
    let mut s = program.to_string();
    if app.is_dirty() {
        crate::chars::push_text(&mut s, " * ");
    } else {
        crate::chars::push_text(&mut s, " ");
    }
    s
}

/// The last message is the "thinking" marker.
pub fn is_thinking(app: &App) -> (r: bool)
    ensures
        r == (app.msgs().len() > 0 && app.msgs().last() is Thinking),
{
    let n = app.messages.len();
    n > 0 && matches!(app.messages[n - 1], crate::app_state::ChatMessage::Thinking)
}

/// `n / unit` rounded to the nearest integer, ties to the even one.
pub open spec fn round_div(n: nat, unit: nat) -> nat
    recommends
        unit > 0,
{
    let q = n / unit;
    let r = n % unit;
    if 2 * r > unit || (2 * r == unit && q % 2 == 1) {
        q + 1
    } else {
        q
    }
}

/// Two to the power 53: a double holds every integer below it exactly.
pub open spec fn mantissa_limit() -> nat {
    9007199254740992
}

/// The number of low bits a double drops from `t`, counting from `k` (a `u64` never
/// needs more than 11).
pub open spec fn shift_from(t: nat, k: nat) -> nat
    decreases 11 - k,
{
    if k >= 11 || t < mantissa_limit() * pow2(k) {
        k
    } else {
        shift_from(t, k + 1)
    }
}

/// The power of two by which a double scales `x / 1_000_000` to 53 bits, counting down
/// from `s`.
pub open spec fn scale_from(x: nat, s: nat) -> nat
    decreases s,
{
    if s == 0 || x * pow2(s) < mantissa_limit() * 1_000_000 {
        s
    } else {
        scale_from(x, (s - 1) as nat)
    }
}

/// `t` as a double: rounded to 53 significant bits, ties to even.
pub open spec fn as_double(t: nat) -> nat {
    let pk = pow2(shift_from(t, 0));
    round_div(t, pk) * pk
}

/// The millions in `t` as a double computes them, as the numerator `n` over the power of
/// two `p`: the quotient `t / 1_000_000` (with `t` as a double) rounded to the nearest
/// double, ties to even.
pub open spec fn millions_double(t: nat) -> (nat, nat) {
    let tf = as_double(t);
    let p = pow2(scale_from(tf, 52));
    (round_div(tf * p, 1_000_000), p)
}

/// Compact token count: below 1000 the number itself; below a million the whole
/// thousands followed by "k"; from a million on the millions followed by "M", computed as
/// a double: the whole number when the double is whole, else one decimal, the double
/// rounded to the nearest tenth (an exact tie to the even tenth).
pub open spec fn tokens_compact(t: nat) -> Seq<char> {
    if t >= 1_000_000 {
        let (n, p) = millions_double(t);
        if n % p == 0 {
            decimal(n / p) + "M"@
        } else {
            let tenths = round_div(10 * n, p);
            decimal(tenths / 10) + "."@ + decimal(tenths % 10) + "M"@
        }
    } else if t >= 1_000 {
        decimal(t / 1_000) + "k"@
    } else {
        decimal(t)
    }
}

/// `n / unit` rounded to the nearest integer, ties to the even one.
fn round_div_exec(n: u128, unit: u128) -> (r: u128)
    requires
        unit > 0,
    ensures
        r == round_div(n as nat, unit as nat),
        r <= n / unit + 1,
{
    let q = n / unit;
    let rem = n % unit;
    assert(q <= n);
    if rem > unit - rem || (rem == unit - rem && q % 2 == 1) {
        assert(q + 1 <= u128::MAX) by (nonlinear_arith)
            requires
                q == n / unit,
                unit > 0,
                rem == n % unit,
                rem > 0,
                n <= u128::MAX,
        {
            assert(n == unit * q + rem);
        }
        q + 1
    } else {
        q
    }
}

proof fn lemma_two_to_le(a: nat, b: nat)
    requires
        a <= b,
    ensures
        1 <= pow2(a) <= pow2(b),
    decreases b,
{
    if b > a {
        lemma_two_to_le(a, (b - 1) as nat);
        lemma_pow2_unfold(b);
    } else {
        lemma_pow2_pos(a);
    }
}

/// `t` as a double (`t as f64`), as an integer.
fn double_of(t: u64) -> (r: u128)
    ensures
        r == as_double(t as nat),
        r <= 18446744073709553664,
{
    proof {
        lemma2_to64();
    }
    let t = t as u128;
    let mut k: u32 = 0;
    let mut pk: u128 = 1;
    while k < 11 && t >= 9007199254740992 * pk
        invariant
            k <= 11,
            pk == pow2(k as nat),
            1 <= pk <= 2048,
            shift_from(t as nat, 0) == shift_from(t as nat, k as nat),
        decreases 11 - k,
    {
        proof {
            lemma2_to64();
            lemma_two_to_le(k as nat, 11);
            lemma_two_to_le((k + 1) as nat, 11);
            lemma_pow2_unfold((k + 1) as nat);
        }
        k = k + 1;
        pk = pk * 2;
    }
    let tq = round_div_exec(t, pk);
    assert(tq * pk <= t + pk) by (nonlinear_arith)
        requires
            tq <= t / pk + 1,
            pk > 0,
    {
        assert((t / pk) * pk <= t);
    }
    tq * pk
}

/// Format a token count in compact form: 1234 -> "1k", 128000 -> "128k", 1500000 -> "1.5M".
pub fn format_tokens_compact(tokens: u64) -> (r: String)
    ensures
        r@ == tokens_compact(tokens as nat),
{
    let mut s = String::new();
    if tokens >= 1_000_000 {
        proof {
            lemma2_to64();
            lemma2_to64_rest();
        }
        let tf = double_of(tokens);
        let mut sc: u32 = 52;
        let mut ps: u128 = 4503599627370496;
        assert(tf * ps <= 18446744073709553664 * 4503599627370496) by (nonlinear_arith)
            requires
                tf <= 18446744073709553664,
                ps <= 4503599627370496,
        ;
        while sc > 0 && tf * ps >= 9007199254740992 * 1_000_000
            invariant
                sc <= 52,
                tf * ps <= 18446744073709553664 * 4503599627370496,
                ps == pow2(sc as nat),
                1 <= ps <= 4503599627370496,
                tf <= 18446744073709553664,
                scale_from(tf as nat, 52) == scale_from(tf as nat, sc as nat),
            decreases sc,
        {
            proof {
                lemma_pow2_unfold(sc as nat);
            }
            let ghost old_ps = ps;
            sc = sc - 1;
            ps = ps / 2;
            assert(tf * ps <= 18446744073709553664 * 4503599627370496) by (nonlinear_arith)
                requires
                    tf * old_ps <= 18446744073709553664 * 4503599627370496,
                    ps <= old_ps,
            ;
        }
        assert(tf * ps < 9007199254740992 * 1_000_000) by (nonlinear_arith)
            requires
                sc == 0 ==> ps == 1,
                sc > 0 ==> tf * ps < 9007199254740992 * 1_000_000,
                tf <= 18446744073709553664,
        ;
        assert(scale_from(tf as nat, sc as nat) == sc);
        let x = tf * ps;
        let n = round_div_exec(x, 1_000_000);
        assert(n <= 9007199254740992);
        assert(millions_double(tokens as nat) == (n as nat, ps as nat));
        if n % ps == 0 {
            assert(n / ps <= n) by (nonlinear_arith)
                requires
                    ps >= 1,
            ;
            push_decimal(&mut s, (n / ps) as u64);
            push_char(&mut s, 'M');
        } else {
            let tenths = round_div_exec(10 * n, ps);
            assert(tenths <= 10 * n + 1) by (nonlinear_arith)
                requires
                    tenths <= (10 * n) as int / ps as int + 1,
                    ps >= 1,
                    n >= 0,
            {
                assert((10 * n) as int / ps as int <= 10 * n);
            }
            push_decimal(&mut s, (tenths / 10) as u64);
            push_char(&mut s, '.');
            push_decimal(&mut s, (tenths % 10) as u64);
            push_char(&mut s, 'M');
        }
    } else if tokens >= 1_000 {
        push_decimal(&mut s, tokens / 1_000);
        push_char(&mut s, 'k');
    } else {
        push_decimal(&mut s, tokens);
    }
    proof {
        reveal_strlit("M");
        reveal_strlit("k");
        reveal_strlit(".");
    }
    s
}

/// Colour of the token usage display.
#[derive(Debug, Clone, Copy, PartialEq, Eq, Structural)]
pub enum UsageColor {
    DarkGray,
    Green,
    Yellow,
    Red,
}

/// Colour for `used` of `total` tokens: gray without a total; otherwise by the ratio
/// computed in doubles (`used as f64 / total as f64`): red when it exceeds the double
/// 0.80, yellow when it exceeds 0.50, green otherwise. The rounded quotient exceeds the
/// double 0.80 (7205759403792794 / 2^53) exactly when the quotient of the two doubles lies
/// above the midpoint to the next double, 14411518807585589 / 2^54 (a tie rounds back to
/// 0.80, whose last bit is even); likewise it exceeds 0.50 exactly when the quotient lies
/// above 9007199254740993 / 2^54.
pub open spec fn usage_color(used: nat, total: nat) -> UsageColor {
    if total == 0 {
        UsageColor::DarkGray
    } else {
        let u = as_double(used);
        let t = as_double(total);
        if u * 18014398509481984 > 14411518807585589 * t {
            UsageColor::Red
        } else if u * 18014398509481984 > 9007199254740993 * t {
            UsageColor::Yellow
        } else {
            UsageColor::Green
        }
    }
}

/// Choose color based on token usage ratio: green < 50%, yellow 50-80%, red > 80%.
pub fn token_usage_color(used: u64, total: u64) -> (r: UsageColor)
    ensures
        r == usage_color(used as nat, total as nat),
{
    if total == 0 {
        return UsageColor::DarkGray;
    }
    let u = double_of(used);
    let t = double_of(total);
    assert(u * 18014398509481984 <= 18446744073709553664 * 18014398509481984) by (nonlinear_arith)
        requires
            u <= 18446744073709553664,
    ;
    assert(14411518807585589 * t <= 14411518807585589 * 18446744073709553664) by (nonlinear_arith)
        requires
            t <= 18446744073709553664,
    ;
    if u * 18014398509481984 > 14411518807585589 * t {
        UsageColor::Red
    } else if u * 18014398509481984 > 9007199254740993 * t {
        UsageColor::Yellow
    } else {
        UsageColor::Green
    }
}

/// A model name as shown in a header slot of `max_len` characters: longer names keep
/// their end, after a leading '…'.
pub open spec fn model_display(name: Seq<char>, max_len: usize) -> Seq<char> {
    if name.len() > max_len {
        let keep = if max_len > 0 { max_len - 1 } else { 0 };
        seq!['…'] + name.skip(name.len() - keep)
    } else {
        name
    }
}

pub fn header_model_display(name: &str, max_len: usize) -> (r: String)
    ensures
        r@ == model_display(name@, max_len),
{
    let v = str_chars(name);
    if v.len() > max_len {
        let keep = if max_len > 0 { max_len - 1 } else { 0 };
        let mut s = String::new();
        push_char(&mut s, '…');
        let tail = string_of(&v, v.len() - keep, v.len());
        s.append(tail.as_str());
        assert(v@.subrange(v@.len() - keep, v@.len() as int) == v@.skip(v@.len() - keep));
        s
    } else {
        let r = string_of(&v, 0, v.len());
        assert(v@.subrange(0, v@.len() as int) == v@);
        r
    }
}

/// Max width for model name in header; longer names are truncated with "…".
pub const MODEL_HEADER_WIDTH: usize = 28;

/// The token usage display: `used/context` in compact form, or `—/context` before any
/// usage was reported.
pub open spec fn tokens_text(used: Option<u64>, context: u64) -> Seq<char> {
    match used {
        Some(u) => tokens_compact(u as nat) + seq!['/'] + tokens_compact(context as nat),
        None => seq!['—', '/'] + tokens_compact(context as nat),
    }
}

/// The token usage display and its colour (grey before any usage was reported).
pub fn tokens_label(app: &App) -> (r: (String, UsageColor))
    ensures
        r.0@ == tokens_text(app.token_usage, app.context_length),
        r.1 == match app.token_usage {
            Some(u) => usage_color(u as nat, app.context_length as nat),
            None => UsageColor::DarkGray,
        },
{
    let ctx = format_tokens_compact(app.context_length);
    match app.token_usage {
        Some(used) => {
            let mut s = format_tokens_compact(used);
            push_char(&mut s, '/');
            crate::chars::push_text(&mut s, &ctx);
            (s, token_usage_color(used, app.context_length))
        },
        None => {
            let mut s = String::new();
            push_char(&mut s, '—');
            push_char(&mut s, '/');
            crate::chars::push_text(&mut s, &ctx);
            assert(s@ =~= seq!['—', '/'] + ctx@);
            (s, UsageColor::DarkGray)
        },
    }
}

/// Column where a title of `title_len` cells starts when centred in an area.
pub fn title_x(area_x: u16, area_width: u16, title_len: u16) -> (r: u16)
    requires
        area_x + area_width <= u16::MAX,
    ensures
        r == area_x + (if area_width > title_len { area_width - title_len } else { 0 }) / 2,
{
    let free = if area_width > title_len {
        area_width - title_len
    } else {
        0
    };
    area_x + free / 2
}

/// The logo: a spinner frame (advancing every 80 ms) while thinking, else the idle mark.
pub open spec fn logo_for(thinking: bool, elapsed_ms: u64) -> Seq<char> {
    if !thinking {
        "◆"@
    } else {
        let frame = (elapsed_ms / 80) % 4;
        if frame == 0 {
            "⠋"@
        } else if frame == 1 {
            "⠙"@
        } else if frame == 2 {
            "⠹"@
        } else {
            "⠸"@
        }
    }
}

/// The logo symbol, `elapsed_ms` after the header was first drawn.
pub fn logo_symbol(thinking: bool, elapsed_ms: u64) -> (r: &'static str)
    ensures
        r@ == logo_for(thinking, elapsed_ms),
{
    if !thinking {
        return "◆";
    }
    let frame = (elapsed_ms / 80) % 4;
    if frame == 0 {
        "⠋"
    } else if frame == 1 {
        "⠙"
    } else if frame == 2 {
        "⠹"
    } else {
        "⠸"
    }
}

} // verus!
