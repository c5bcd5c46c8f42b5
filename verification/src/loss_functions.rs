//! Loss selection: the kinds of loss a search can minimise, read from their
//! names, and the loss types that the numeric layer gives their formulas.
//! The parameters of a loss are real numbers; they are carried here as the
//! bits of their IEEE-754 binary64 encoding, which the numeric layer decodes.
use crate::text::{
    ascii_lower, lower, lower_chars,
    chars_eq_str, chars_of, is_whitespace, lemma_trim_idempotent, trim, trim_chars, trim_end,
    trim_start,
};
use vstd::prelude::*;

verus! {

/// `1.0` as binary64 bits.
pub const ONE_BITS: u64 = 0x3ff0_0000_0000_0000;

/// `2.0` as binary64 bits.
pub const TWO_BITS: u64 = 0x4000_0000_0000_0000;

/// `0.5` as binary64 bits.
pub const HALF_BITS: u64 = 0x3fe0_0000_0000_0000;

/// `0.1` as binary64 bits.
pub const TENTH_BITS: u64 = 0x3fb9_9999_9999_999a;

/// A kind of loss, with its parameter where it has one.
#[derive(Copy, Clone, Debug, PartialEq, Eq)]
pub enum LossKind {
    Mse,
    Mae,
    Rmse,
    Huber { delta_bits: u64 },
    LogCosh,
    Lp { p_bits: u64 },
    Quantile { tau_bits: u64 },
    EpsilonInsensitive { eps_bits: u64 },
}

/// A mean over rows of a pointwise loss.
#[derive(Clone, Debug)]
pub struct MeanLoss<L>(pub L);

/// The squared residual.
#[derive(Clone, Debug, Default)]
pub struct SquaredLoss;

/// The absolute residual.
#[derive(Clone, Debug, Default)]
pub struct AbsLoss;

/// The logarithm of the hyperbolic cosine of the residual.
#[derive(Clone, Debug, Default)]
pub struct LogCoshLoss;

/// The square root of the mean squared residual.
#[derive(Clone, Debug, Default)]
pub struct Rmse;

/// The loss kind that a name gives, after trimming whitespace and ignoring
/// ASCII case; each parameterised kind gets its default parameter.
pub open spec fn loss_kind_named(s: Seq<char>) -> Option<LossKind> {
    let t = lower(trim(s));
    if t == "mse"@ {
        Some(LossKind::Mse)
    } else if t == "mae"@ {
        Some(LossKind::Mae)
    } else if t == "rmse"@ {
        Some(LossKind::Rmse)
    } else if t == "huber"@ {
        Some(LossKind::Huber { delta_bits: ONE_BITS })
    } else if t == "logcosh"@ {
        Some(LossKind::LogCosh)
    } else if t == "lp"@ {
        Some(LossKind::Lp { p_bits: TWO_BITS })
    } else if t == "quantile"@ {
        Some(LossKind::Quantile { tau_bits: HALF_BITS })
    } else if t == "epsilon-insensitive"@ || t == "epsilon_insensitive"@ || t
        == "eps-insensitive"@ || t == "eps_insensitive"@ {
        Some(LossKind::EpsilonInsensitive { eps_bits: TENTH_BITS })
    } else {
        None
    }
}

impl LossKind {
    /// Reads a loss kind from its name.
    pub fn parse(s: &str) -> (r: Option<LossKind>)
        ensures
            r == loss_kind_named(s@),
    {
        let chars = chars_of(s);
        let trimmed = trim_chars(chars.as_slice());
        let t = lower_chars(trimmed.as_slice());
        let t = t.as_slice();
        if chars_eq_str(t, "mse") {
            Some(LossKind::Mse)
        } else if chars_eq_str(t, "mae") {
            Some(LossKind::Mae)
        } else if chars_eq_str(t, "rmse") {
            Some(LossKind::Rmse)
        } else if chars_eq_str(t, "huber") {
            Some(LossKind::Huber { delta_bits: ONE_BITS })
        } else if chars_eq_str(t, "logcosh") {
            Some(LossKind::LogCosh)
        } else if chars_eq_str(t, "lp") {
            Some(LossKind::Lp { p_bits: TWO_BITS })
        } else if chars_eq_str(t, "quantile") {
            Some(LossKind::Quantile { tau_bits: HALF_BITS })
        } else if chars_eq_str(t, "epsilon-insensitive") || chars_eq_str(t, "epsilon_insensitive")
            || chars_eq_str(t, "eps-insensitive") || chars_eq_str(t, "eps_insensitive") {
            Some(LossKind::EpsilonInsensitive { eps_bits: TENTH_BITS })
        } else {
            None
        }
    }
}

proof fn lemma_lower_keeps_whitespace(c: char)
    ensures
        is_whitespace(ascii_lower(c)) == is_whitespace(c),
        ascii_lower(ascii_lower(c)) == ascii_lower(c),
{
    if 'A' <= c && c <= 'Z' {
        let d = ascii_lower(c);
        assert(d as int == c as int + 32);
    }
}

proof fn lemma_trim_start_lower(s: Seq<char>)
    ensures
        trim_start(lower(s)) == lower(trim_start(s)),
    decreases s.len(),
{
    if s.len() > 0 {
        lemma_lower_keeps_whitespace(s[0]);
        assert(lower(s)[0] == ascii_lower(s[0]));
        if is_whitespace(s[0]) {
            lemma_trim_start_lower(s.drop_first());
            assert(lower(s).drop_first() =~= lower(s.drop_first()));
        }
    }
}

proof fn lemma_trim_end_lower(s: Seq<char>)
    ensures
        trim_end(lower(s)) == lower(trim_end(s)),
    decreases s.len(),
{
    if s.len() > 0 {
        lemma_lower_keeps_whitespace(s.last());
        assert(lower(s).last() == ascii_lower(s.last()));
        if is_whitespace(s.last()) {
            lemma_trim_end_lower(s.drop_last());
            assert(lower(s).drop_last() =~= lower(s.drop_last()));
        }
    }
}

proof fn lemma_lower_idempotent(s: Seq<char>)
    ensures
        lower(lower(s)) == lower(s),
{
    assert forall|i: int| 0 <= i < s.len() implies #[trigger] lower(lower(s))[i] == lower(s)[i] by {
        lemma_lower_keeps_whitespace(s[i]);
    }
    assert(lower(lower(s)) =~= lower(s));
}

/// Loss names are read regardless of ASCII case and of whitespace around
/// them: lower-casing or trimming a name first gives the same kind.
pub proof fn lemma_loss_names_ignore_case_and_padding(s: Seq<char>)
    ensures
        loss_kind_named(lower(s)) == loss_kind_named(s),
        loss_kind_named(trim(s)) == loss_kind_named(s),
{
    lemma_trim_start_lower(s);
    lemma_trim_end_lower(trim_start(s));
    lemma_lower_idempotent(trim(s));
    assert(trim(lower(s)) == lower(trim(s)));
    lemma_trim_idempotent(s);
}

} // verus!
