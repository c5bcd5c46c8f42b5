//! The command-line front end of a search run: flags, configuration entries,
//! operator lists, the choice of the reported equation, and the feature
//! columns of a table.
use crate::text::{
    chars_eq_str, chars_of, is_float_literal, is_float_text, decimal, decimal_chars, lemma_decimal_parses, parse_unsigned, parse_usize,
    clone_strings, parse_u64, push_char, split, split_chars, string_from, strings_from, trim,
    trim_chars,
};
use crate::config::{ConfigValue, ConfigValueView};
use vstd::string::StringSliceAdditionalSpecFns;
use vstd::prelude::*;

verus! {

/// Appends the characters of `lit`.
pub(crate) fn push_str(out: &mut String, lit: &str)
    ensures
        final(out)@ == old(out)@ + lit@,
{
    let n = lit.unicode_len();
    for i in 0..n
        invariant
            n == lit@.len(),
            out@ == old(out)@ + lit@.take(i as int),
    {
        push_char(out, lit.get_char(i));
        assert(lit@.take(i + 1) =~= lit@.take(i as int).push(lit@[i as int]));
        assert(out@ =~= old(out)@ + lit@.take(i + 1));
    }
    assert(lit@.take(n as int) =~= lit@);
}

/// Which equation of the Pareto front a run reports.
#[derive(Clone, Copy, Debug, PartialEq, Eq)]
pub enum Selection {
    BestCost,
    BestLoss,
    /// The equation at this 1-based position of the front.
    ParetoIndex(usize),
    /// The first equation with this complexity.
    Complexity(usize),
}

/// The text of a selection.
pub open spec fn selection_text(s: Selection) -> Seq<char> {
    match s {
        Selection::BestCost => "best-cost"@,
        Selection::BestLoss => "best-loss"@,
        Selection::ParetoIndex(i) => "pareto-index="@ + decimal(i as nat),
        Selection::Complexity(c) => "complexity="@ + decimal(c as nat),
    }
}

impl Selection {
    /// The text of the selection, as it is written on the command line.
    pub fn to_display_string(&self) -> (r: String)
        ensures
            r@ == selection_text(*self),
    {
        let mut out = String::new();
        match self {
            Selection::BestCost => push_str(&mut out, "best-cost"),
            Selection::BestLoss => push_str(&mut out, "best-loss"),
            Selection::ParetoIndex(i) => {
                push_str(&mut out, "pareto-index=");
                push_decimal(&mut out, *i);
            },
            Selection::Complexity(c) => {
                push_str(&mut out, "complexity=");
                push_decimal(&mut out, *c);
            },
        }
        out
    }
}

fn push_decimal(out: &mut String, n: usize)
    ensures
        final(out)@ == old(out)@ + decimal(n as nat),
{
    let digits = decimal_chars(n as u64);
    for i in 0..digits.len()
        invariant
            out@ == old(out)@ + digits@.take(i as int),
    {
        push_char(out, digits[i]);
        assert(digits@.take(i + 1) =~= digits@.take(i as int).push(digits@[i as int]));
        assert(out@ =~= old(out)@ + digits@.take(i + 1));
    }
    assert(digits@.take(digits@.len() as int) =~= digits@);
}

pub open spec fn starts_with(s: Seq<char>, prefix: Seq<char>) -> bool {
    s.len() >= prefix.len() && s.take(prefix.len() as int) == prefix
}

/// The selection that a text names, if any.
pub open spec fn selection_named(value: Seq<char>) -> Option<Selection> {
    if value == "best-cost"@ {
        Some(Selection::BestCost)
    } else if value == "best-loss"@ {
        Some(Selection::BestLoss)
    } else if starts_with(value, "pareto-index="@) {
        match parse_unsigned(value.skip("pareto-index="@.len() as int), usize::MAX as nat) {
            Some(n) => Some(Selection::ParetoIndex(n as usize)),
            None => None,
        }
    } else if starts_with(value, "complexity="@) {
        match parse_unsigned(value.skip("complexity="@.len() as int), usize::MAX as nat) {
            Some(n) => Some(Selection::Complexity(n as usize)),
            None => None,
        }
    } else {
        None
    }
}

fn starts_with_str(s: &[char], prefix: &str) -> (r: bool)
    ensures
        r == starts_with(s@, prefix@),
{
    let n = prefix.unicode_len();
    if s.len() < n {
        return false;
    }
    for i in 0..n
        invariant
            n == prefix@.len(),
            n <= s@.len(),
            forall|k: int| 0 <= k < i ==> s@[k] == prefix@[k],
    {
        if s[i] != prefix.get_char(i) {
            assert(s@.take(n as int)[i as int] != prefix@[i as int]);
            return false;
        }
    }
    assert(s@.take(n as int) =~= prefix@);
    true
}

fn skip_chars(s: &[char], from: usize) -> (r: Vec<char>)
    requires
        from <= s@.len(),
    ensures
        r@ == s@.skip(from as int),
{
    let mut r: Vec<char> = Vec::new();
    let mut i = from;
    while i < s.len()
        invariant
            from <= i <= s@.len(),
            r@ == s@.subrange(from as int, i as int),
        decreases s@.len() - i,
    {
        r.push(s[i]);
        i = i + 1;
        assert(r@ =~= s@.subrange(from as int, i as int));
    }
    r
}

/// The number after a prefix that the text starts with.
fn number_after(value: &[char], prefix: &str) -> (r: Option<usize>)
    requires
        starts_with(value@, prefix@),
    ensures
        match parse_unsigned(value@.skip(prefix@.len() as int), usize::MAX as nat) {
            Some(n) => r == Some(n as usize),
            None => r is None,
        },
{
    let rest = skip_chars(value, prefix.unicode_len());
    parse_usize(rest.as_slice())
}

/// The text that follows the first `n` bytes of the UTF-8 encoding of
/// `value`.
pub open spec fn text_after_bytes(value: Seq<char>, n: int) -> Seq<char> {
    let b = vstd::utf8::encode_utf8(value);
    vstd::utf8::decode_utf8(b.subrange(n, b.len() as int))
}

/// The number written in `value` after as many bytes as `prefix` has. The
/// cut must fall on a character boundary of `value`, and what follows it
/// must be a number that fits a `usize`.
pub fn parse_selection_usize(value: &str, prefix: &str) -> (r: usize)
    requires
        value.spec_bytes().len() <= usize::MAX,
        vstd::utf8::is_char_boundary(value.spec_bytes(), prefix.spec_bytes().len() as int),
        parse_unsigned(
            text_after_bytes(value@, prefix.spec_bytes().len() as int),
            usize::MAX as nat,
        ) is Some,
    ensures
        parse_unsigned(text_after_bytes(value@, prefix.spec_bytes().len() as int), usize::MAX as nat)
            == Some(r as nat),
{
    let n = prefix.len();
    proof {
        vstd::utf8::encode_utf8_valid_utf8(value@);
    }
    let (_, rest) = value.split_at(n);
    proof {
        vstd::utf8::encode_utf8_decode_utf8(rest@);
    }
    assert(rest@ == text_after_bytes(value@, n as int));
    let c = chars_of(rest);
    match parse_usize(c.as_slice()) {
        Some(k) => k,
        None => vstd::pervasive::unreached(),
    }
}

/// The selection that a text names, if any.
fn read_selection(value: &str) -> (r: Option<Selection>)
    ensures
        r == selection_named(value@),
{
    let v = chars_of(value);
    let v = v.as_slice();
    if chars_eq_str(v, "best-cost") {
        Some(Selection::BestCost)
    } else if chars_eq_str(v, "best-loss") {
        Some(Selection::BestLoss)
    } else if starts_with_str(v, "pareto-index=") {
        match number_after(v, "pareto-index=") {
            Some(n) => Some(Selection::ParetoIndex(n)),
            None => None,
        }
    } else if starts_with_str(v, "complexity=") {
        match number_after(v, "complexity=") {
            Some(n) => Some(Selection::Complexity(n)),
            None => None,
        }
    } else {
        None
    }
}

/// Reads a selection: `best-cost`, `best-loss`, `pareto-index=N` or
/// `complexity=N`. Any other text is no selection and is not accepted here;
/// the command line and the configuration reader refuse it with
/// `CliError::BadSelection`.
pub fn parse_selection(value: &str) -> (r: Selection)
    requires
        selection_named(value@) is Some,
    ensures
        selection_named(value@) == Some(r),
{
    match read_selection(value) {
        Some(s) => s,
        None => vstd::pervasive::unreached(),
    }
}

/// A selection written out reads back as itself.
pub proof fn lemma_selection_text_round_trip(s: Selection)
    ensures
        selection_named(selection_text(s)) == Some(s),
{
    reveal_strlit("best-cost");
    reveal_strlit("best-loss");
    reveal_strlit("pareto-index=");
    reveal_strlit("complexity=");
    match s {
        Selection::BestCost => {
            assert(selection_text(s) == "best-cost"@);
        },
        Selection::BestLoss => {
            assert(selection_text(s) == "best-loss"@);
            assert("best-loss"@ != "best-cost"@) by {
                assert("best-loss"@[5] != "best-cost"@[5]);
            }
        },
        Selection::ParetoIndex(i) => {
            let t = selection_text(s);
            let p = "pareto-index="@;
            lemma_decimal_parses(i as nat);
            assert(t.take(p.len() as int) =~= p);
            assert(t.skip(p.len() as int) =~= decimal(i as nat));
            assert(t != "best-cost"@) by {
                assert(t[0] != "best-cost"@[0]);
            }
            assert(t != "best-loss"@) by {
                assert(t[0] != "best-loss"@[0]);
            }
        },
        Selection::Complexity(c) => {
            let t = selection_text(s);
            let p = "complexity="@;
            lemma_decimal_parses(c as nat);
            assert(t.take(p.len() as int) =~= p);
            assert(t.skip(p.len() as int) =~= decimal(c as nat));
            assert(t != "best-cost"@) by {
                assert(t[1] != "best-cost"@[1]);
            }
            assert(t != "best-loss"@) by {
                assert(t[1] != "best-loss"@[1]);
            }
            assert(!starts_with(t, "pareto-index="@)) by {
                assert(t[0] != "pareto-index="@[0]);
            }
        },
    }
}

/// The name under which an operator is known: `-` is `sub`.
pub open spec fn normalized_operator(name: Seq<char>) -> Seq<char> {
    if name == "-"@ {
        "sub"@
    } else {
        name
    }
}

pub fn normalize_operator_name(name: &str) -> (r: String)
    ensures
        r@ == normalized_operator(name@),
{
    let v = chars_of(name);
    if chars_eq_str(v.as_slice(), "-") {
        "sub".to_owned()
    } else {
        name.to_owned()
    }
}

/// The trimmed, non-empty items of a comma-separated list.
pub open spec fn csv_list(value: Seq<char>) -> Seq<Seq<char>> {
    split(value, ',').map_values(|p: Seq<char>| trim(p)).filter(|p: Seq<char>| p.len() > 0)
}

/// The operator names of a comma-separated list.
pub open spec fn operator_list(value: Seq<char>) -> Seq<Seq<char>> {
    csv_list(value).map_values(|p: Seq<char>| normalized_operator(p))
}

pub open spec fn views(v: Seq<String>) -> Seq<Seq<char>> {
    v.map_values(|s: String| s@)
}

fn csv_items(value: &str) -> (r: Vec<Vec<char>>)
    ensures
        r@.map_values(|p: Vec<char>| p@) == csv_list(value@),
{
    let chars = chars_of(value);
    let pieces = split_chars(chars.as_slice(), ',');
    let ghost all = split(value@, ',').map_values(|p: Seq<char>| trim(p));
    let mut out: Vec<Vec<char>> = Vec::new();
    for i in 0..pieces.len()
        invariant
            pieces@.len() == split(value@, ',').len(),
            forall|k: int|
                0 <= k < pieces@.len() ==> #[trigger] pieces@[k]@ == split(value@, ',')[k],
            all == split(value@, ',').map_values(|p: Seq<char>| trim(p)),
            out@.map_values(|p: Vec<char>| p@) == all.take(i as int).filter(
                |p: Seq<char>| p.len() > 0,
            ),
    {
        let t = trim_chars(pieces[i].as_slice());
        let ghost before = out@.map_values(|p: Vec<char>| p@);
        proof {
            assert(all.take(i + 1).drop_last() =~= all.take(i as int));
            assert(all.take(i + 1).last() == t@);
            vstd::seq_lib::lemma_seq_skip_nothing(all, 0);
        }
        if t.len() > 0 {
            out.push(t);
            assert(out@.map_values(|p: Vec<char>| p@) =~= before.push(t@));
        }
        proof {
            reveal_with_fuel(Seq::filter, 1);
            assert(all.take(i + 1).filter(|p: Seq<char>| p.len() > 0) == (if t@.len() > 0 {
                all.take(i as int).filter(|p: Seq<char>| p.len() > 0).push(t@)
            } else {
                all.take(i as int).filter(|p: Seq<char>| p.len() > 0)
            }));
        }
    }
    assert(all.take(pieces@.len() as int) =~= all);
    out
}

/// The trimmed, non-empty items of a comma-separated list.
pub fn parse_csv_list(value: &str) -> (r: Vec<String>)
    ensures
        views(r@) == csv_list(value@),
{
    let items = csv_items(value);
    let r = strings_from(&items);
    assert(views(r@) =~= items@.map_values(|p: Vec<char>| p@));
    r
}

/// The operator names of a comma-separated list, with `-` read as `sub`.
pub fn parse_operator_string(value: &str) -> (r: Vec<String>)
    ensures
        views(r@) == operator_list(value@),
{
    let items = parse_csv_list(value);
    let mut out: Vec<String> = Vec::new();
    for i in 0..items.len()
        invariant
            views(items@) == csv_list(value@),
            views(out@) == views(items@.take(i as int)).map_values(
                |p: Seq<char>| normalized_operator(p),
            ),
    {
        let ghost before = views(out@);
        out.push(normalize_operator_name(items[i].as_str()));
        assert(views(out@) =~= before.push(normalized_operator(items@[i as int]@)));
        assert(views(items@.take(i + 1)) =~= views(items@.take(i as int)).push(items@[i as int]@));
        assert(views(out@) =~= views(items@.take(i + 1)).map_values(
            |p: Seq<char>| normalized_operator(p),
        ));
    }
    assert(items@.take(items@.len() as int) =~= items@);
    out
}

/// Why a command line or a configuration was refused.
#[derive(Clone, Debug)]
pub enum CliError {
    /// This flag came last, without its value.
    MissingValue(String),
    /// The value of this flag is not a number of the right kind.
    BadValue(String),
    UnknownArgument(String),
    /// No training table was named.
    TrainRequired,
    /// This text names no selection.
    BadSelection(String),
    /// The value of this configuration key is not a string.
    ConfigNotString(String),
    /// The value of this configuration key is neither a string array nor a
    /// string.
    ConfigNotStringArray(String),
    ConfigNotBool(String),
    ConfigNotNumber(String),
    /// The number given for this configuration key does not fit its kind.
    ConfigBadNumber(String),
    /// A configuration file names another configuration file.
    NestedConfig,
    /// This configuration key (with `-` read as `_`) is not known.
    UnknownConfigKey(String),
    /// A 1-based Pareto index of zero.
    ParetoIndexZero,
    /// A Pareto index past the end of the front.
    ParetoIndexOutside(usize),
    /// No equation of the front has this complexity.
    NoEquationWithComplexity(usize),
    /// Interval targets were asked for and only one bound column was read.
    UnpairedTargetBounds,
    /// Only one bound column was read.
    InvalidTargetBounds,
}

pub enum CliErrorView {
    MissingValue(Seq<char>),
    BadValue(Seq<char>),
    UnknownArgument(Seq<char>),
    TrainRequired,
    BadSelection(Seq<char>),
    ConfigNotString(Seq<char>),
    ConfigNotStringArray(Seq<char>),
    ConfigNotBool(Seq<char>),
    ConfigNotNumber(Seq<char>),
    ConfigBadNumber(Seq<char>),
    NestedConfig,
    UnknownConfigKey(Seq<char>),
    ParetoIndexZero,
    ParetoIndexOutside(usize),
    NoEquationWithComplexity(usize),
    UnpairedTargetBounds,
    InvalidTargetBounds,
}

impl View for CliError {
    type V = CliErrorView;

    open spec fn view(&self) -> CliErrorView {
        match self {
            CliError::MissingValue(s) => CliErrorView::MissingValue(s@),
            CliError::BadValue(s) => CliErrorView::BadValue(s@),
            CliError::UnknownArgument(s) => CliErrorView::UnknownArgument(s@),
            CliError::TrainRequired => CliErrorView::TrainRequired,
            CliError::BadSelection(s) => CliErrorView::BadSelection(s@),
            CliError::ConfigNotString(s) => CliErrorView::ConfigNotString(s@),
            CliError::ConfigNotStringArray(s) => CliErrorView::ConfigNotStringArray(s@),
            CliError::ConfigNotBool(s) => CliErrorView::ConfigNotBool(s@),
            CliError::ConfigNotNumber(s) => CliErrorView::ConfigNotNumber(s@),
            CliError::ConfigBadNumber(s) => CliErrorView::ConfigBadNumber(s@),
            CliError::NestedConfig => CliErrorView::NestedConfig,
            CliError::UnknownConfigKey(s) => CliErrorView::UnknownConfigKey(s@),
            CliError::ParetoIndexZero => CliErrorView::ParetoIndexZero,
            CliError::ParetoIndexOutside(i) => CliErrorView::ParetoIndexOutside(*i),
            CliError::NoEquationWithComplexity(c) => CliErrorView::NoEquationWithComplexity(*c),
            CliError::UnpairedTargetBounds => CliErrorView::UnpairedTargetBounds,
            CliError::InvalidTargetBounds => CliErrorView::InvalidTargetBounds,
        }
    }
}

/// The settings of a run. The two probabilities are real numbers, kept as
/// the text that gave them; the numeric layer reads them.
pub struct Args {
    pub config: Option<String>,
    pub train: String,
    pub test: Option<String>,
    pub target: String,
    pub features: Option<Vec<String>>,
    pub weight: Option<String>,
    pub target_low: Option<String>,
    pub target_high: Option<String>,
    pub sequence_id: Option<String>,
    pub niterations: usize,
    pub populations: usize,
    pub population_size: usize,
    pub cycles: usize,
    pub optimizer_iterations: usize,
    pub maxsize: usize,
    pub maxdepth: usize,
    pub max_delay: usize,
    pub delay_probability: String,
    pub parsimony: String,
    pub seed: u64,
    pub interval_targets: bool,
    pub unary_operators: Vec<String>,
    pub binary_operators: Vec<String>,
    pub selection: Selection,
}

pub struct ArgsView {
    pub config: Option<Seq<char>>,
    pub train: Seq<char>,
    pub test: Option<Seq<char>>,
    pub target: Seq<char>,
    pub features: Option<Seq<Seq<char>>>,
    pub weight: Option<Seq<char>>,
    pub target_low: Option<Seq<char>>,
    pub target_high: Option<Seq<char>>,
    pub sequence_id: Option<Seq<char>>,
    pub niterations: usize,
    pub populations: usize,
    pub population_size: usize,
    pub cycles: usize,
    pub optimizer_iterations: usize,
    pub maxsize: usize,
    pub maxdepth: usize,
    pub max_delay: usize,
    pub delay_probability: Seq<char>,
    pub parsimony: Seq<char>,
    pub seed: u64,
    pub interval_targets: bool,
    pub unary_operators: Seq<Seq<char>>,
    pub binary_operators: Seq<Seq<char>>,
    pub selection: Selection,
}

pub open spec fn opt_view(o: Option<String>) -> Option<Seq<char>> {
    match o {
        Some(s) => Some(s@),
        None => None,
    }
}

pub open spec fn opt_views(o: Option<Vec<String>>) -> Option<Seq<Seq<char>>> {
    match o {
        Some(v) => Some(views(v@)),
        None => None,
    }
}

impl View for Args {
    type V = ArgsView;

    open spec fn view(&self) -> ArgsView {
        ArgsView {
            config: opt_view(self.config),
            train: self.train@,
            test: opt_view(self.test),
            target: self.target@,
            features: opt_views(self.features),
            weight: opt_view(self.weight),
            target_low: opt_view(self.target_low),
            target_high: opt_view(self.target_high),
            sequence_id: opt_view(self.sequence_id),
            niterations: self.niterations,
            populations: self.populations,
            population_size: self.population_size,
            cycles: self.cycles,
            optimizer_iterations: self.optimizer_iterations,
            maxsize: self.maxsize,
            maxdepth: self.maxdepth,
            max_delay: self.max_delay,
            delay_probability: self.delay_probability@,
            parsimony: self.parsimony@,
            seed: self.seed,
            interval_targets: self.interval_targets,
            unary_operators: views(self.unary_operators@),
            binary_operators: views(self.binary_operators@),
            selection: self.selection,
        }
    }
}

/// The settings before any configuration or flag.
pub open spec fn default_args_view() -> ArgsView {
    ArgsView {
        config: None,
        train: Seq::empty(),
        test: None,
        target: "target"@,
        features: None,
        weight: None,
        target_low: None,
        target_high: None,
        sequence_id: None,
        niterations: 50,
        populations: 8,
        population_size: 80,
        cycles: 400,
        optimizer_iterations: 10,
        maxsize: 30,
        maxdepth: 8,
        max_delay: 0,
        delay_probability: "0.0"@,
        parsimony: "0.0"@,
        seed: 1009,
        interval_targets: false,
        unary_operators: seq!["cos"@, "sin"@],
        binary_operators: seq!["+"@, "sub"@, "*"@, "/"@],
        selection: Selection::BestCost,
    }
}

pub fn default_args() -> (r: Args)
    ensures
        r@ == default_args_view(),
{
    let unary = vec!["cos".to_owned(), "sin".to_owned()];
    let binary = vec!["+".to_owned(), "sub".to_owned(), "*".to_owned(), "/".to_owned()];
    let r = Args {
        config: None,
        train: String::new(),
        test: None,
        target: "target".to_owned(),
        features: None,
        weight: None,
        target_low: None,
        target_high: None,
        sequence_id: None,
        niterations: 50,
        populations: 8,
        population_size: 80,
        cycles: 400,
        optimizer_iterations: 10,
        maxsize: 30,
        maxdepth: 8,
        max_delay: 0,
        delay_probability: "0.0".to_owned(),
        parsimony: "0.0".to_owned(),
        seed: 1009,
        interval_targets: false,
        unary_operators: unary,
        binary_operators: binary,
        selection: Selection::BestCost,
    };
    assert(views(r.unary_operators@) =~= seq!["cos"@, "sin"@]);
    assert(views(r.binary_operators@) =~= seq!["+"@, "sub"@, "*"@, "/"@]);
    r
}

/// The settings once complete: a training table is required, and interval
/// targets default to the columns `target_low` and `target_high`.
pub open spec fn finalized(a: ArgsView) -> Result<ArgsView, CliErrorView> {
    if a.train.len() == 0 {
        Err(CliErrorView::TrainRequired)
    } else if a.interval_targets {
        Ok(
            ArgsView {
                target_low: if a.target_low is None {
                    Some("target_low"@)
                } else {
                    a.target_low
                },
                target_high: if a.target_high is None {
                    Some("target_high"@)
                } else {
                    a.target_high
                },
                ..a
            },
        )
    } else {
        Ok(a)
    }
}

pub fn finalize_args(args: Args) -> (r: Result<Args, CliError>)
    ensures
        match finalized(args@) {
            Ok(a) => r matches Ok(x) && x@ == a,
            Err(e) => r matches Err(x) && x@ == e,
        },
{
    let mut out = args;
    if out.train.as_str().is_empty() {
        return Err(CliError::TrainRequired);
    }
    if out.interval_targets {
        if out.target_low.is_none() {
            out.target_low = Some("target_low".to_owned());
        }
        if out.target_high.is_none() {
            out.target_high = Some("target_high".to_owned());
        }
    }
    Ok(out)
}

/// The value that follows position `idx`.
pub fn value_at(argv: &[String], idx: usize, name: &str) -> (r: Result<String, CliError>)
    requires
        idx < argv@.len(),
    ensures
        idx + 1 < argv@.len() ==> (r matches Ok(v) && v@ == argv@[idx + 1]@),
        idx + 1 >= argv@.len() ==> (r matches Err(e) && e@ == CliErrorView::MissingValue(name@)),
{
    if idx < argv.len() - 1 {
        Ok(argv[idx + 1].clone())
    } else {
        Err(CliError::MissingValue(name.to_owned()))
    }
}

/// The position of the first `--config` flag at or after position `i`.
pub open spec fn config_flag_from(argv: Seq<Seq<char>>, i: int) -> Option<int>
    decreases argv.len() - i,
{
    if i < 0 || i >= argv.len() {
        None
    } else if argv[i] == "--config"@ {
        Some(i)
    } else {
        config_flag_from(argv, i + 1)
    }
}

/// The position of the first `--config` flag.
pub open spec fn first_config_flag(argv: Seq<Seq<char>>) -> Option<int> {
    config_flag_from(argv, 0)
}

/// The configuration file that the first `--config` flag names, if any.
pub fn config_path(argv: &[String]) -> (r: Result<Option<String>, CliError>)
    ensures
        match first_config_flag(views(argv@)) {
            None => r matches Ok(None),
            Some(i) => if i + 1 < argv@.len() {
                r matches Ok(Some(p)) && p@ == argv@[i + 1]@
            } else {
                r matches Err(e) && e@ == CliErrorView::MissingValue("--config"@)
            },
        },
{
    let ghost v = views(argv@);
    for i in 0..argv.len()
        invariant
            v == views(argv@),
            first_config_flag(v) == config_flag_from(v, i as int),
    {
        let a = chars_of(argv[i].as_str());
        assert(v[i as int] == argv@[i as int]@);
        if chars_eq_str(a.as_slice(), "--config") {
            return match value_at(argv, i, "--config") {
                Ok(p) => Ok(Some(p)),
                Err(e) => Err(e),
            };
        }
    }
    Ok(None)
}

/// The configuration file that a command line names, as `config_path`
/// finds it.
pub open spec fn config_path_of(argv: Seq<Seq<char>>) -> Result<Option<Seq<char>>, CliErrorView> {
    match first_config_flag(argv) {
        None => Ok(None),
        Some(i) => if i + 1 < argv.len() {
            Ok(Some(argv[i + 1]))
        } else {
            Err(CliErrorView::MissingValue("--config"@))
        },
    }
}

/// The settings of a run: the defaults, then the entries of the
/// configuration file that the command line names, then the flags in order,
/// completed; none when help was asked for.
pub open spec fn resolved_args(
    argv: Seq<Seq<char>>,
    entries: Seq<(Seq<char>, ConfigValueView)>,
) -> Result<Option<ArgsView>, CliErrorView> {
    let configured = match config_path_of(argv) {
        Err(e) => Err(e),
        Ok(None) => Ok(default_args_view()),
        Ok(Some(path)) => match config_from(entries, 0, default_args_view()) {
            Ok(a) => Ok(ArgsView { config: Some(path), ..a }),
            Err(e) => Err(e),
        },
    };
    match configured {
        Err(e) => Err(e),
        Ok(a) => match command_line_from(argv, 0, a) {
            Err(e) => Err(e),
            Ok((_, true)) => Ok(None),
            Ok((b, false)) => match finalized(b) {
                Ok(c) => Ok(Some(c)),
                Err(e) => Err(e),
            },
        },
    }
}

proof fn lemma_config_flag_from(argv: Seq<Seq<char>>, i: int)
    requires
        0 <= i,
    ensures
        config_flag_from(argv, i) matches Some(k) ==> i <= k < argv.len() && argv[k] == "--config"@,
    decreases argv.len() - i,
{
    if i < argv.len() && argv[i] != "--config"@ {
        lemma_config_flag_from(argv, i + 1);
    }
}

/// Resolves the settings of a run from its command line (without the
/// program name) and the entries of the configuration file that it names,
/// which the caller has read (they are ignored when it names none): the
/// flags override the file. `Ok(None)` means that help was asked for.
pub fn resolve_args(argv: &[String], config_entries: &[(String, ConfigValue)]) -> (r: Result<
    Option<Args>,
    CliError,
>)
    ensures
        match resolved_args(views(argv@), crate::config::entries_view(config_entries@)) {
            Ok(Some(a)) => r matches Ok(Some(x)) && x@ == a,
            Ok(None) => r matches Ok(None),
            Err(e) => r matches Err(x) && x@ == e,
        },
{
    let mut out = default_args();
    let ghost all = views(argv@);
    proof {
        lemma_config_flag_from(all, 0);
        if let Some(i) = first_config_flag(all) {
            if i + 1 < all.len() {
                assert(all[i + 1] == argv@[i + 1]@);
            }
        }
    }
    match config_path(argv) {
        Err(e) => {
            return Err(e);
        },
        Ok(None) => {},
        Ok(Some(path)) => {
            if let Err(e) = apply_config_entries(config_entries, &mut out) {
                return Err(e);
            }
            out.config = Some(path);
        },
    }
    match apply_command_line(argv, &mut out) {
        Err(e) => Err(e),
        Ok(true) => Ok(None),
        Ok(false) => match finalize_args(out) {
            Ok(a) => Ok(Some(a)),
            Err(e) => Err(e),
        },
    }
}

/// The operator names that a run searches with: the unary ones, then the
/// binary ones.
pub fn operator_names(args: &Args) -> (r: Vec<String>)
    ensures
        views(r@) == args@.unary_operators + args@.binary_operators,
{
    let mut out = clone_strings(&args.unary_operators);
    let more = clone_strings(&args.binary_operators);
    let ghost a = out@;
    let mut more = more;
    out.append(&mut more);
    assert(views(out@) =~= views(args.unary_operators@) + views(args.binary_operators@));
    out
}

/// The value of a flag, or that the flag came last without it.
pub open spec fn need(val: Option<Seq<char>>, flag: Seq<char>) -> Result<Seq<char>, CliErrorView> {
    match val {
        Some(v) => Ok(v),
        None => Err(CliErrorView::MissingValue(flag)),
    }
}

pub open spec fn count_value(v: Seq<char>, flag: Seq<char>) -> Result<usize, CliErrorView> {
    match parse_unsigned(v, usize::MAX as nat) {
        Some(n) => Ok(n as usize),
        None => Err(CliErrorView::BadValue(flag)),
    }
}

/// The flags that take a value.
pub open spec fn is_value_flag(flag: Seq<char>) -> bool {
    ||| flag == "--train"@
    ||| flag == "--test"@
    ||| flag == "--target"@
    ||| flag == "--features"@
    ||| flag == "--weight"@
    ||| flag == "--target-low"@
    ||| flag == "--target-high"@
    ||| flag == "--sequence-id"@
    ||| flag == "--niterations"@
    ||| flag == "--populations"@
    ||| flag == "--population-size"@
    ||| flag == "--cycles"@
    ||| flag == "--optimizer-iterations"@
    ||| flag == "--maxsize"@
    ||| flag == "--maxdepth"@
    ||| flag == "--max-delay"@
    ||| flag == "--delay-probability"@
    ||| flag == "--parsimony"@
    ||| flag == "--seed"@
    ||| flag == "--unary-operators"@
    ||| flag == "--binary-operators"@
    ||| flag == "--selection"@
}

/// The settings after a flag that takes a value, with its value `v`.
pub open spec fn flag_value(a: ArgsView, flag: Seq<char>, v: Seq<char>) -> Result<
    ArgsView,
    CliErrorView,
> {
    if flag == "--train"@ {
        Ok(ArgsView { train: v, ..a })
    } else if flag == "--test"@ {
        Ok(ArgsView { test: Some(v), ..a })
    } else if flag == "--target"@ {
        Ok(ArgsView { target: v, ..a })
    } else if flag == "--features"@ {
        Ok(ArgsView { features: Some(csv_list(v)), ..a })
    } else if flag == "--weight"@ {
        Ok(ArgsView { weight: Some(v), ..a })
    } else if flag == "--target-low"@ {
        Ok(ArgsView { target_low: Some(v), ..a })
    } else if flag == "--target-high"@ {
        Ok(ArgsView { target_high: Some(v), ..a })
    } else if flag == "--sequence-id"@ {
        Ok(ArgsView { sequence_id: Some(v), ..a })
    } else if flag == "--niterations"@ {
        match count_value(v, flag) {
            Ok(n) => Ok(ArgsView { niterations: n, ..a }),
            Err(e) => Err(e),
        }
    } else if flag == "--populations"@ {
        match count_value(v, flag) {
            Ok(n) => Ok(ArgsView { populations: n, ..a }),
            Err(e) => Err(e),
        }
    } else if flag == "--population-size"@ {
        match count_value(v, flag) {
            Ok(n) => Ok(ArgsView { population_size: n, ..a }),
            Err(e) => Err(e),
        }
    } else if flag == "--cycles"@ {
        match count_value(v, flag) {
            Ok(n) => Ok(ArgsView { cycles: n, ..a }),
            Err(e) => Err(e),
        }
    } else if flag == "--optimizer-iterations"@ {
        match count_value(v, flag) {
            Ok(n) => Ok(ArgsView { optimizer_iterations: n, ..a }),
            Err(e) => Err(e),
        }
    } else if flag == "--maxsize"@ {
        match count_value(v, flag) {
            Ok(n) => Ok(ArgsView { maxsize: n, ..a }),
            Err(e) => Err(e),
        }
    } else if flag == "--maxdepth"@ {
        match count_value(v, flag) {
            Ok(n) => Ok(ArgsView { maxdepth: n, ..a }),
            Err(e) => Err(e),
        }
    } else if flag == "--max-delay"@ {
        match count_value(v, flag) {
            Ok(n) => Ok(ArgsView { max_delay: n, ..a }),
            Err(e) => Err(e),
        }
    } else if flag == "--delay-probability"@ || flag == "--parsimony"@ {
        if !is_float_text(v) {
            Err(CliErrorView::BadValue(flag))
        } else if flag == "--delay-probability"@ {
            Ok(ArgsView { delay_probability: v, ..a })
        } else {
            Ok(ArgsView { parsimony: v, ..a })
        }
    } else if flag == "--seed"@ {
        match parse_unsigned(v, u64::MAX as nat) {
            Some(n) => Ok(ArgsView { seed: n as u64, ..a }),
            None => Err(CliErrorView::BadValue(flag)),
        }
    } else if flag == "--unary-operators"@ {
        Ok(ArgsView { unary_operators: operator_list(v), ..a })
    } else if flag == "--binary-operators"@ {
        Ok(ArgsView { binary_operators: operator_list(v), ..a })
    } else {
        match selection_named(v) {
            Some(sel) => Ok(ArgsView { selection: sel, ..a }),
            None => Err(CliErrorView::BadSelection(v)),
        }
    }
}

/// The settings after a flag that takes a value, given the value that
/// follows it, if any; none when `flag` is not such a flag.
pub open spec fn flag_update(a: ArgsView, flag: Seq<char>, val: Option<Seq<char>>) -> Option<
    Result<ArgsView, CliErrorView>,
> {
    if !is_value_flag(flag) {
        None
    } else {
        match val {
            None => Some(Err(CliErrorView::MissingValue(flag))),
            Some(v) => Some(flag_value(a, flag, v)),
        }
    }
}

/// The settings after the command-line arguments from position `idx` on,
/// and whether help was asked for (which stops the reading).
pub open spec fn command_line_from(argv: Seq<Seq<char>>, idx: int, a: ArgsView) -> Result<
    (ArgsView, bool),
    CliErrorView,
>
    decreases argv.len() + 2 - idx,
{
    if idx >= argv.len() || idx < 0 {
        Ok((a, false))
    } else {
        let arg = argv[idx];
        let val = if idx + 1 < argv.len() {
            Some(argv[idx + 1])
        } else {
            None
        };
        if arg == "--config"@ {
            command_line_from(argv, idx + 2, a)
        } else if arg == "--interval-targets"@ {
            command_line_from(argv, idx + 1, ArgsView { interval_targets: true, ..a })
        } else if arg == "--help"@ || arg == "-h"@ {
            Ok((a, true))
        } else {
            match flag_update(a, arg, val) {
                Some(Ok(a2)) => command_line_from(argv, idx + 2, a2),
                Some(Err(e)) => Err(e),
                None => Err(CliErrorView::UnknownArgument(arg)),
            }
        }
    }
}

fn set_count(target: &mut usize, v: &String, flag: &str) -> (r: Result<(), CliError>)
    ensures
        match count_value(v@, flag@) {
            Ok(n) => r is Ok && *final(target) == n,
            Err(e) => r matches Err(x) && x@ == e && *final(target) == *old(target),
        },
{
    let c = chars_of(v.as_str());
    match parse_usize(c.as_slice()) {
        Some(n) => {
            *target = n;
            Ok(())
        },
        None => Err(CliError::BadValue(flag.to_owned())),
    }
}

/// Applies a flag that takes a value; none when `flag` is not such a flag.
fn apply_flag(args: &mut Args, flag: &[char], val: Option<&String>) -> (r: Option<
    Result<(), CliError>,
>)
    ensures
        match flag_update(
            old(args)@,
            flag@,
            match val {
                Some(v) => Some(v@),
                None => None,
            },
        ) {
            None => r is None && final(args)@ == old(args)@,
            Some(Ok(a)) => r matches Some(Ok(_)) && final(args)@ == a,
            Some(Err(e)) => r matches Some(Err(x)) && x@ == e,
        },
{
    let is_value_flag = chars_eq_str(flag, "--train") || chars_eq_str(flag, "--test")
        || chars_eq_str(flag, "--target") || chars_eq_str(flag, "--features") || chars_eq_str(
        flag,
        "--weight",
    ) || chars_eq_str(flag, "--target-low") || chars_eq_str(flag, "--target-high")
        || chars_eq_str(flag, "--sequence-id") || chars_eq_str(flag, "--niterations")
        || chars_eq_str(flag, "--populations") || chars_eq_str(flag, "--population-size")
        || chars_eq_str(flag, "--cycles") || chars_eq_str(flag, "--optimizer-iterations")
        || chars_eq_str(flag, "--maxsize") || chars_eq_str(flag, "--maxdepth") || chars_eq_str(
        flag,
        "--max-delay",
    ) || chars_eq_str(flag, "--delay-probability") || chars_eq_str(flag, "--parsimony")
        || chars_eq_str(flag, "--seed") || chars_eq_str(flag, "--unary-operators")
        || chars_eq_str(flag, "--binary-operators") || chars_eq_str(flag, "--selection");
    if !is_value_flag {
        return None;
    }
    let v = match val {
        Some(v) => v,
        None => {
            return Some(Err(CliError::MissingValue(string_from(flag))));
        },
    };
    if chars_eq_str(flag, "--train") {
        args.train = v.clone();
    } else if chars_eq_str(flag, "--test") {
        args.test = Some(v.clone());
    } else if chars_eq_str(flag, "--target") {
        args.target = v.clone();
    } else if chars_eq_str(flag, "--features") {
        args.features = Some(parse_csv_list(v.as_str()));
    } else if chars_eq_str(flag, "--weight") {
        args.weight = Some(v.clone());
    } else if chars_eq_str(flag, "--target-low") {
        args.target_low = Some(v.clone());
    } else if chars_eq_str(flag, "--target-high") {
        args.target_high = Some(v.clone());
    } else if chars_eq_str(flag, "--sequence-id") {
        args.sequence_id = Some(v.clone());
    } else if chars_eq_str(flag, "--niterations") {
        return Some(set_count(&mut args.niterations, v, "--niterations"));
    } else if chars_eq_str(flag, "--populations") {
        return Some(set_count(&mut args.populations, v, "--populations"));
    } else if chars_eq_str(flag, "--population-size") {
        return Some(set_count(&mut args.population_size, v, "--population-size"));
    } else if chars_eq_str(flag, "--cycles") {
        return Some(set_count(&mut args.cycles, v, "--cycles"));
    } else if chars_eq_str(flag, "--optimizer-iterations") {
        return Some(set_count(&mut args.optimizer_iterations, v, "--optimizer-iterations"));
    } else if chars_eq_str(flag, "--maxsize") {
        return Some(set_count(&mut args.maxsize, v, "--maxsize"));
    } else if chars_eq_str(flag, "--maxdepth") {
        return Some(set_count(&mut args.maxdepth, v, "--maxdepth"));
    } else if chars_eq_str(flag, "--max-delay") {
        return Some(set_count(&mut args.max_delay, v, "--max-delay"));
    } else if chars_eq_str(flag, "--delay-probability") || chars_eq_str(flag, "--parsimony") {
        let c = chars_of(v.as_str());
        if !is_float_literal(c.as_slice()) {
            return Some(Err(CliError::BadValue(string_from(flag))));
        }
        if chars_eq_str(flag, "--delay-probability") {
            args.delay_probability = v.clone();
        } else {
            args.parsimony = v.clone();
        }
    } else if chars_eq_str(flag, "--seed") {
        let c = chars_of(v.as_str());
        match parse_u64(c.as_slice()) {
            Some(n) => {
                args.seed = n;
            },
            None => {
                return Some(Err(CliError::BadValue("--seed".to_owned())));
            },
        }
    } else if chars_eq_str(flag, "--unary-operators") {
        args.unary_operators = parse_operator_string(v.as_str());
    } else if chars_eq_str(flag, "--binary-operators") {
        args.binary_operators = parse_operator_string(v.as_str());
    } else {
        match read_selection(v.as_str()) {
            Some(sel) => {
                args.selection = sel;
            },
            None => {
                return Some(Err(CliError::BadSelection(v.clone())));
            },
        }
    }
    Some(Ok(()))
}

/// Applies the command-line arguments in order, skipping `--config` and its
/// value; stops at `--help` or `-h` and says so.
pub fn apply_command_line(argv: &[String], args: &mut Args) -> (r: Result<bool, CliError>)
    ensures
        match command_line_from(views(argv@), 0, old(args)@) {
            Ok((a, help)) => r == Ok::<bool, CliError>(help) && final(args)@ == a,
            Err(e) => r matches Err(x) && x@ == e,
        },
{
    let ghost all = views(argv@);
    let ghost start = args@;
    let mut idx: usize = 0;
    while idx < argv.len()
        invariant
            all == views(argv@),
            start == old(args)@,
            command_line_from(all, 0, start) == command_line_from(all, idx as int, args@),
        decreases argv@.len() - idx,
    {
        let arg = chars_of(argv[idx].as_str());
        let arg = arg.as_slice();
        let ghost val = if idx + 1 < argv@.len() {
            Some(all[idx + 1])
        } else {
            None::<Seq<char>>
        };
        assert(all[idx as int] == argv@[idx as int]@);
        let ghost before = args@;
        let ghost i0 = idx as int;
        if chars_eq_str(arg, "--config") {
            assert(command_line_from(all, i0, before) == command_line_from(all, i0 + 2, before));
            if argv.len() - idx < 2 {
                assert(command_line_from(all, i0 + 2, before) == command_line_from(all, all.len() as int, before));
                idx = argv.len();
            } else {
                idx = idx + 2;
            }
        } else if chars_eq_str(arg, "--interval-targets") {
            args.interval_targets = true;
            assert(args@ == ArgsView { interval_targets: true, ..before });
            idx = idx + 1;
        } else if chars_eq_str(arg, "--help") || chars_eq_str(arg, "-h") {
            return Ok(true);
        } else {
            let next = if idx < argv.len() - 1 {
                Some(&argv[idx + 1])
            } else {
                None
            };
            assert(match next {
                Some(v) => Some(v@),
                None => None,
            } == val);
            match apply_flag(args, arg, next) {
                Some(Ok(())) => {
                    assert(command_line_from(all, i0, before) == command_line_from(all, i0 + 2, args@));
                    if argv.len() - idx < 2 {
                        assert(command_line_from(all, i0 + 2, args@) == command_line_from(all, all.len() as int, args@));
                        idx = argv.len();
                    } else {
                        idx = idx + 2;
                    }
                },
                Some(Err(e)) => {
                    return Err(e);
                },
                None => {
                    return Err(CliError::UnknownArgument(string_from(arg)));
                },
            }
        }
    }
    Ok(false)
}

/// Reading a command line after a first part of two arguments that it
/// skips is reading the rest alone.
proof fn lemma_command_line_shift(
    head: Seq<Seq<char>>,
    rest: Seq<Seq<char>>,
    k: int,
    a: ArgsView,
)
    requires
        head.len() == 2,
        0 <= k,
    ensures
        command_line_from(head + rest, k + 2, a) == command_line_from(rest, k, a),
    decreases rest.len() + 2 - k,
{
    let all = head + rest;
    if k < rest.len() {
        assert(all[k + 2] == rest[k]);
        if k + 1 < rest.len() {
            assert(all[k + 3] == rest[k + 1]);
        }
        let arg = rest[k];
        if arg == "--config"@ {
            lemma_command_line_shift(head, rest, k + 2, a);
        } else if arg == "--interval-targets"@ {
            lemma_command_line_shift(head, rest, k + 1, ArgsView { interval_targets: true, ..a });
        } else if arg == "--help"@ || arg == "-h"@ {
        } else {
            let val = if k + 1 < rest.len() {
                Some(rest[k + 1])
            } else {
                None
            };
            if let Some(Ok(a2)) = flag_update(a, arg, val) {
                lemma_command_line_shift(head, rest, k + 2, a2);
            }
        }
    }
}

/// The flags of a command line act on the settings of the configuration
/// file that it names: with `--config PATH` first, the run's settings are
/// those of the file, then each later flag in order, completed. So a flag
/// overrides what the file says.
pub proof fn lemma_flags_apply_after_configuration(
    path: Seq<char>,
    rest: Seq<Seq<char>>,
    entries: Seq<(Seq<char>, ConfigValueView)>,
)
    ensures
        resolved_args(seq!["--config"@, path] + rest, entries) == match config_from(
            entries,
            0,
            default_args_view(),
        ) {
            Err(e) => Err(e),
            Ok(c) => match command_line_from(rest, 0, ArgsView { config: Some(path), ..c }) {
                Err(e) => Err(e),
                Ok((_, true)) => Ok(None),
                Ok((b, false)) => match finalized(b) {
                    Ok(d) => Ok(Some(d)),
                    Err(e) => Err(e),
                },
            },
        },
{
    let head = seq!["--config"@, path];
    let all = head + rest;
    assert(all[0] == "--config"@);
    assert(all[1] == path);
    assert(config_flag_from(all, 0) == Some(0int));
    if let Ok(c) = config_from(entries, 0, default_args_view()) {
        let a = ArgsView { config: Some(path), ..c };
        lemma_command_line_shift(head, rest, 0, a);
        assert(command_line_from(all, 0, a) == command_line_from(all, 2, a));
    }
}

/// A single flag with its value, read from the settings `a`.
proof fn lemma_one_flag(a: ArgsView, flag: Seq<char>, v: Seq<char>)
    requires
        is_value_flag(flag),
        flag != "--config"@,
        flag != "--interval-targets"@,
        flag != "--help"@,
        flag != "-h"@,
    ensures
        command_line_from(seq![flag, v], 0, a) == match flag_value(a, flag, v) {
            Ok(a2) => Ok((a2, false)),
            Err(e) => Err(e),
        },
{
    let argv = seq![flag, v];
    assert(argv[0] == flag);
    assert(argv[1] == v);
    if let Ok(a2) = flag_value(a, flag, v) {
        assert(command_line_from(argv, 2, a2) == Ok::<(ArgsView, bool), CliErrorView>((a2, false)));
    }
}

/// A count flag with a valid count sets exactly the setting it names, and
/// leaves every other setting as it was.
pub proof fn lemma_count_flags_set_their_setting(a: ArgsView, v: Seq<char>, n: nat)
    requires
        parse_unsigned(v, usize::MAX as nat) == Some(n),
    ensures
        command_line_from(seq!["--niterations"@, v], 0, a) == Ok::<(ArgsView, bool), CliErrorView>(
            (ArgsView { niterations: n as usize, ..a }, false),
        ),
        command_line_from(seq!["--populations"@, v], 0, a) == Ok::<(ArgsView, bool), CliErrorView>(
            (ArgsView { populations: n as usize, ..a }, false),
        ),
        command_line_from(seq!["--population-size"@, v], 0, a) == Ok::<(ArgsView, bool), CliErrorView>(
            (ArgsView { population_size: n as usize, ..a }, false),
        ),
        command_line_from(seq!["--cycles"@, v], 0, a) == Ok::<(ArgsView, bool), CliErrorView>(
            (ArgsView { cycles: n as usize, ..a }, false),
        ),
        command_line_from(seq!["--optimizer-iterations"@, v], 0, a) == Ok::<(ArgsView, bool), CliErrorView>(
            (ArgsView { optimizer_iterations: n as usize, ..a }, false),
        ),
        command_line_from(seq!["--maxsize"@, v], 0, a) == Ok::<(ArgsView, bool), CliErrorView>(
            (ArgsView { maxsize: n as usize, ..a }, false),
        ),
        command_line_from(seq!["--maxdepth"@, v], 0, a) == Ok::<(ArgsView, bool), CliErrorView>(
            (ArgsView { maxdepth: n as usize, ..a }, false),
        ),
        command_line_from(seq!["--max-delay"@, v], 0, a) == Ok::<(ArgsView, bool), CliErrorView>(
            (ArgsView { max_delay: n as usize, ..a }, false),
        ),
{
    reveal_strlit("--train");
    reveal_strlit("--test");
    reveal_strlit("--target");
    reveal_strlit("--features");
    reveal_strlit("--weight");
    reveal_strlit("--target-low");
    reveal_strlit("--target-high");
    reveal_strlit("--sequence-id");
    reveal_strlit("--niterations");
    reveal_strlit("--populations");
    reveal_strlit("--population-size");
    reveal_strlit("--cycles");
    reveal_strlit("--optimizer-iterations");
    reveal_strlit("--maxsize");
    reveal_strlit("--maxdepth");
    reveal_strlit("--max-delay");
    reveal_strlit("--delay-probability");
    reveal_strlit("--parsimony");
    reveal_strlit("--seed");
    reveal_strlit("--unary-operators");
    reveal_strlit("--binary-operators");
    reveal_strlit("--selection");
    reveal_strlit("--config");
    reveal_strlit("--interval-targets");
    reveal_strlit("--help");
    reveal_strlit("-h");
    assert("--niterations"@.len() != "--train"@.len());
    assert("--niterations"@.len() != "--test"@.len());
    assert("--niterations"@.len() != "--target"@.len());
    assert("--niterations"@.len() != "--features"@.len());
    assert("--niterations"@.len() != "--weight"@.len());
    assert("--niterations"@.len() != "--target-low"@.len());
    assert("--niterations"@[2] != "--target-high"@[2]);
    assert("--niterations"@[2] != "--sequence-id"@[2]);
    assert("--niterations"@.len() != "--config"@.len());
    assert("--niterations"@.len() != "--interval-targets"@.len());
    assert("--niterations"@.len() != "--help"@.len());
    assert("--niterations"@.len() != "-h"@.len());
    lemma_one_flag(a, "--niterations"@, v);
    assert("--populations"@.len() != "--train"@.len());
    assert("--populations"@.len() != "--test"@.len());
    assert("--populations"@.len() != "--target"@.len());
    assert("--populations"@.len() != "--features"@.len());
    assert("--populations"@.len() != "--weight"@.len());
    assert("--populations"@.len() != "--target-low"@.len());
    assert("--populations"@[2] != "--target-high"@[2]);
    assert("--populations"@[2] != "--sequence-id"@[2]);
    assert("--populations"@[2] != "--niterations"@[2]);
    assert("--populations"@.len() != "--config"@.len());
    assert("--populations"@.len() != "--interval-targets"@.len());
    assert("--populations"@.len() != "--help"@.len());
    assert("--populations"@.len() != "-h"@.len());
    lemma_one_flag(a, "--populations"@, v);
    assert("--population-size"@.len() != "--train"@.len());
    assert("--population-size"@.len() != "--test"@.len());
    assert("--population-size"@.len() != "--target"@.len());
    assert("--population-size"@.len() != "--features"@.len());
    assert("--population-size"@.len() != "--weight"@.len());
    assert("--population-size"@.len() != "--target-low"@.len());
    assert("--population-size"@.len() != "--target-high"@.len());
    assert("--population-size"@.len() != "--sequence-id"@.len());
    assert("--population-size"@.len() != "--niterations"@.len());
    assert("--population-size"@.len() != "--populations"@.len());
    assert("--population-size"@.len() != "--config"@.len());
    assert("--population-size"@.len() != "--interval-targets"@.len());
    assert("--population-size"@.len() != "--help"@.len());
    assert("--population-size"@.len() != "-h"@.len());
    lemma_one_flag(a, "--population-size"@, v);
    assert("--cycles"@.len() != "--train"@.len());
    assert("--cycles"@.len() != "--test"@.len());
    assert("--cycles"@[2] != "--target"@[2]);
    assert("--cycles"@.len() != "--features"@.len());
    assert("--cycles"@[2] != "--weight"@[2]);
    assert("--cycles"@.len() != "--target-low"@.len());
    assert("--cycles"@.len() != "--target-high"@.len());
    assert("--cycles"@.len() != "--sequence-id"@.len());
    assert("--cycles"@.len() != "--niterations"@.len());
    assert("--cycles"@.len() != "--populations"@.len());
    assert("--cycles"@.len() != "--population-size"@.len());
    assert("--cycles"@[3] != "--config"@[3]);
    assert("--cycles"@.len() != "--interval-targets"@.len());
    assert("--cycles"@.len() != "--help"@.len());
    assert("--cycles"@.len() != "-h"@.len());
    lemma_one_flag(a, "--cycles"@, v);
    assert("--optimizer-iterations"@.len() != "--train"@.len());
    assert("--optimizer-iterations"@.len() != "--test"@.len());
    assert("--optimizer-iterations"@.len() != "--target"@.len());
    assert("--optimizer-iterations"@.len() != "--features"@.len());
    assert("--optimizer-iterations"@.len() != "--weight"@.len());
    assert("--optimizer-iterations"@.len() != "--target-low"@.len());
    assert("--optimizer-iterations"@.len() != "--target-high"@.len());
    assert("--optimizer-iterations"@.len() != "--sequence-id"@.len());
    assert("--optimizer-iterations"@.len() != "--niterations"@.len());
    assert("--optimizer-iterations"@.len() != "--populations"@.len());
    assert("--optimizer-iterations"@.len() != "--population-size"@.len());
    assert("--optimizer-iterations"@.len() != "--cycles"@.len());
    assert("--optimizer-iterations"@.len() != "--config"@.len());
    assert("--optimizer-iterations"@.len() != "--interval-targets"@.len());
    assert("--optimizer-iterations"@.len() != "--help"@.len());
    assert("--optimizer-iterations"@.len() != "-h"@.len());
    lemma_one_flag(a, "--optimizer-iterations"@, v);
    assert("--maxsize"@.len() != "--train"@.len());
    assert("--maxsize"@.len() != "--test"@.len());
    assert("--maxsize"@.len() != "--target"@.len());
    assert("--maxsize"@.len() != "--features"@.len());
    assert("--maxsize"@.len() != "--weight"@.len());
    assert("--maxsize"@.len() != "--target-low"@.len());
    assert("--maxsize"@.len() != "--target-high"@.len());
    assert("--maxsize"@.len() != "--sequence-id"@.len());
    assert("--maxsize"@.len() != "--niterations"@.len());
    assert("--maxsize"@.len() != "--populations"@.len());
    assert("--maxsize"@.len() != "--population-size"@.len());
    assert("--maxsize"@.len() != "--cycles"@.len());
    assert("--maxsize"@.len() != "--optimizer-iterations"@.len());
    assert("--maxsize"@.len() != "--config"@.len());
    assert("--maxsize"@.len() != "--interval-targets"@.len());
    assert("--maxsize"@.len() != "--help"@.len());
    assert("--maxsize"@.len() != "-h"@.len());
    lemma_one_flag(a, "--maxsize"@, v);
    assert("--maxdepth"@.len() != "--train"@.len());
    assert("--maxdepth"@.len() != "--test"@.len());
    assert("--maxdepth"@.len() != "--target"@.len());
    assert("--maxdepth"@[2] != "--features"@[2]);
    assert("--maxdepth"@.len() != "--weight"@.len());
    assert("--maxdepth"@.len() != "--target-low"@.len());
    assert("--maxdepth"@.len() != "--target-high"@.len());
    assert("--maxdepth"@.len() != "--sequence-id"@.len());
    assert("--maxdepth"@.len() != "--niterations"@.len());
    assert("--maxdepth"@.len() != "--populations"@.len());
    assert("--maxdepth"@.len() != "--population-size"@.len());
    assert("--maxdepth"@.len() != "--cycles"@.len());
    assert("--maxdepth"@.len() != "--optimizer-iterations"@.len());
    assert("--maxdepth"@.len() != "--maxsize"@.len());
    assert("--maxdepth"@.len() != "--config"@.len());
    assert("--maxdepth"@.len() != "--interval-targets"@.len());
    assert("--maxdepth"@.len() != "--help"@.len());
    assert("--maxdepth"@.len() != "-h"@.len());
    lemma_one_flag(a, "--maxdepth"@, v);
    assert("--max-delay"@.len() != "--train"@.len());
    assert("--max-delay"@.len() != "--test"@.len());
    assert("--max-delay"@.len() != "--target"@.len());
    assert("--max-delay"@.len() != "--features"@.len());
    assert("--max-delay"@.len() != "--weight"@.len());
    assert("--max-delay"@.len() != "--target-low"@.len());
    assert("--max-delay"@.len() != "--target-high"@.len());
    assert("--max-delay"@.len() != "--sequence-id"@.len());
    assert("--max-delay"@.len() != "--niterations"@.len());
    assert("--max-delay"@.len() != "--populations"@.len());
    assert("--max-delay"@.len() != "--population-size"@.len());
    assert("--max-delay"@.len() != "--cycles"@.len());
    assert("--max-delay"@.len() != "--optimizer-iterations"@.len());
    assert("--max-delay"@.len() != "--maxsize"@.len());
    assert("--max-delay"@.len() != "--maxdepth"@.len());
    assert("--max-delay"@.len() != "--config"@.len());
    assert("--max-delay"@.len() != "--interval-targets"@.len());
    assert("--max-delay"@.len() != "--help"@.len());
    assert("--max-delay"@.len() != "-h"@.len());
    lemma_one_flag(a, "--max-delay"@, v);
}

/// A flag that names a column or a file sets exactly that setting to its
/// value, and leaves every other setting as it was.
pub proof fn lemma_text_flags_set_their_setting(a: ArgsView, v: Seq<char>)
    ensures
        command_line_from(seq!["--train"@, v], 0, a) == Ok::<(ArgsView, bool), CliErrorView>(
            (ArgsView { train: v, ..a }, false),
        ),
        command_line_from(seq!["--test"@, v], 0, a) == Ok::<(ArgsView, bool), CliErrorView>(
            (ArgsView { test: Some(v), ..a }, false),
        ),
        command_line_from(seq!["--target"@, v], 0, a) == Ok::<(ArgsView, bool), CliErrorView>(
            (ArgsView { target: v, ..a }, false),
        ),
        command_line_from(seq!["--weight"@, v], 0, a) == Ok::<(ArgsView, bool), CliErrorView>(
            (ArgsView { weight: Some(v), ..a }, false),
        ),
        command_line_from(seq!["--target-low"@, v], 0, a) == Ok::<(ArgsView, bool), CliErrorView>(
            (ArgsView { target_low: Some(v), ..a }, false),
        ),
        command_line_from(seq!["--target-high"@, v], 0, a) == Ok::<(ArgsView, bool), CliErrorView>(
            (ArgsView { target_high: Some(v), ..a }, false),
        ),
        command_line_from(seq!["--sequence-id"@, v], 0, a) == Ok::<(ArgsView, bool), CliErrorView>(
            (ArgsView { sequence_id: Some(v), ..a }, false),
        ),
{
    reveal_strlit("--train");
    reveal_strlit("--test");
    reveal_strlit("--target");
    reveal_strlit("--features");
    reveal_strlit("--weight");
    reveal_strlit("--target-low");
    reveal_strlit("--target-high");
    reveal_strlit("--sequence-id");
    reveal_strlit("--niterations");
    reveal_strlit("--populations");
    reveal_strlit("--population-size");
    reveal_strlit("--cycles");
    reveal_strlit("--optimizer-iterations");
    reveal_strlit("--maxsize");
    reveal_strlit("--maxdepth");
    reveal_strlit("--max-delay");
    reveal_strlit("--delay-probability");
    reveal_strlit("--parsimony");
    reveal_strlit("--seed");
    reveal_strlit("--unary-operators");
    reveal_strlit("--binary-operators");
    reveal_strlit("--selection");
    reveal_strlit("--config");
    reveal_strlit("--interval-targets");
    reveal_strlit("--help");
    reveal_strlit("-h");
    assert("--train"@.len() != "--config"@.len());
    assert("--train"@.len() != "--interval-targets"@.len());
    assert("--train"@.len() != "--help"@.len());
    assert("--train"@.len() != "-h"@.len());
    lemma_one_flag(a, "--train"@, v);
    assert("--test"@.len() != "--train"@.len());
    assert("--test"@.len() != "--config"@.len());
    assert("--test"@.len() != "--interval-targets"@.len());
    assert("--test"@[2] != "--help"@[2]);
    assert("--test"@.len() != "-h"@.len());
    lemma_one_flag(a, "--test"@, v);
    assert("--target"@.len() != "--train"@.len());
    assert("--target"@.len() != "--test"@.len());
    assert("--target"@[2] != "--config"@[2]);
    assert("--target"@.len() != "--interval-targets"@.len());
    assert("--target"@.len() != "--help"@.len());
    assert("--target"@.len() != "-h"@.len());
    lemma_one_flag(a, "--target"@, v);
    assert("--weight"@.len() != "--train"@.len());
    assert("--weight"@.len() != "--test"@.len());
    assert("--weight"@[2] != "--target"@[2]);
    assert("--weight"@.len() != "--features"@.len());
    assert("--weight"@[2] != "--config"@[2]);
    assert("--weight"@.len() != "--interval-targets"@.len());
    assert("--weight"@.len() != "--help"@.len());
    assert("--weight"@.len() != "-h"@.len());
    lemma_one_flag(a, "--weight"@, v);
    assert("--target-low"@.len() != "--train"@.len());
    assert("--target-low"@.len() != "--test"@.len());
    assert("--target-low"@.len() != "--target"@.len());
    assert("--target-low"@.len() != "--features"@.len());
    assert("--target-low"@.len() != "--weight"@.len());
    assert("--target-low"@.len() != "--config"@.len());
    assert("--target-low"@.len() != "--interval-targets"@.len());
    assert("--target-low"@.len() != "--help"@.len());
    assert("--target-low"@.len() != "-h"@.len());
    lemma_one_flag(a, "--target-low"@, v);
    assert("--target-high"@.len() != "--train"@.len());
    assert("--target-high"@.len() != "--test"@.len());
    assert("--target-high"@.len() != "--target"@.len());
    assert("--target-high"@.len() != "--features"@.len());
    assert("--target-high"@.len() != "--weight"@.len());
    assert("--target-high"@.len() != "--target-low"@.len());
    assert("--target-high"@.len() != "--config"@.len());
    assert("--target-high"@.len() != "--interval-targets"@.len());
    assert("--target-high"@.len() != "--help"@.len());
    assert("--target-high"@.len() != "-h"@.len());
    lemma_one_flag(a, "--target-high"@, v);
    assert("--sequence-id"@.len() != "--train"@.len());
    assert("--sequence-id"@.len() != "--test"@.len());
    assert("--sequence-id"@.len() != "--target"@.len());
    assert("--sequence-id"@.len() != "--features"@.len());
    assert("--sequence-id"@.len() != "--weight"@.len());
    assert("--sequence-id"@.len() != "--target-low"@.len());
    assert("--sequence-id"@[2] != "--target-high"@[2]);
    assert("--sequence-id"@.len() != "--config"@.len());
    assert("--sequence-id"@.len() != "--interval-targets"@.len());
    assert("--sequence-id"@.len() != "--help"@.len());
    assert("--sequence-id"@.len() != "-h"@.len());
    lemma_one_flag(a, "--sequence-id"@, v);
}

/// A key with each `-` read as `_`.
pub open spec fn dash_to_underscore(s: Seq<char>) -> Seq<char> {
    s.map_values(|c: char| if c == '-' { '_' } else { c })
}

pub open spec fn expect_string(key: Seq<char>, v: ConfigValueView) -> Result<Seq<char>, CliErrorView> {
    match v {
        ConfigValueView::String(s) => Ok(s),
        _ => Err(CliErrorView::ConfigNotString(key)),
    }
}

/// A string array, or the items of a comma-separated string.
pub open spec fn expect_string_array(key: Seq<char>, v: ConfigValueView) -> Result<
    Seq<Seq<char>>,
    CliErrorView,
> {
    match v {
        ConfigValueView::StringArray(a) => Ok(a),
        ConfigValueView::String(s) => Ok(csv_list(s)),
        _ => Err(CliErrorView::ConfigNotStringArray(key)),
    }
}

pub open spec fn expect_operator_array(key: Seq<char>, v: ConfigValueView) -> Result<
    Seq<Seq<char>>,
    CliErrorView,
> {
    match expect_string_array(key, v) {
        Ok(a) => Ok(a.map_values(|p: Seq<char>| normalized_operator(p))),
        Err(e) => Err(e),
    }
}

pub open spec fn expect_bool(key: Seq<char>, v: ConfigValueView) -> Result<bool, CliErrorView> {
    match v {
        ConfigValueView::Bool(b) => Ok(b),
        _ => Err(CliErrorView::ConfigNotBool(key)),
    }
}

pub open spec fn expect_number(key: Seq<char>, v: ConfigValueView, max: nat) -> Result<
    nat,
    CliErrorView,
> {
    match v {
        ConfigValueView::Number(t) => match parse_unsigned(t, max) {
            Some(n) => Ok(n),
            None => Err(CliErrorView::ConfigBadNumber(key)),
        },
        _ => Err(CliErrorView::ConfigNotNumber(key)),
    }
}

pub open spec fn expect_number_text(key: Seq<char>, v: ConfigValueView) -> Result<
    Seq<char>,
    CliErrorView,
> {
    match v {
        ConfigValueView::Number(t) => Ok(t),
        _ => Err(CliErrorView::ConfigNotNumber(key)),
    }
}

/// The text of a number that reads as a real number.
pub open spec fn expect_real_text(key: Seq<char>, v: ConfigValueView) -> Result<
    Seq<char>,
    CliErrorView,
> {
    match expect_number_text(key, v) {
        Ok(t) => if is_float_text(t) {
            Ok(t)
        } else {
            Err(CliErrorView::ConfigBadNumber(key))
        },
        Err(e) => Err(e),
    }
}

pub open spec fn count_entry(a: ArgsView, key: Seq<char>, v: ConfigValueView, k: Seq<char>) -> Result<
    ArgsView,
    CliErrorView,
> {
    match expect_number(key, v, usize::MAX as nat) {
        Ok(n) => {
            let n = n as usize;
            Ok(
                if k == "niterations"@ {
                    ArgsView { niterations: n, ..a }
                } else if k == "populations"@ {
                    ArgsView { populations: n, ..a }
                } else if k == "population_size"@ {
                    ArgsView { population_size: n, ..a }
                } else if k == "cycles"@ {
                    ArgsView { cycles: n, ..a }
                } else if k == "optimizer_iterations"@ {
                    ArgsView { optimizer_iterations: n, ..a }
                } else if k == "maxsize"@ {
                    ArgsView { maxsize: n, ..a }
                } else if k == "maxdepth"@ {
                    ArgsView { maxdepth: n, ..a }
                } else {
                    ArgsView { max_delay: n, ..a }
                },
            )
        },
        Err(e) => Err(e),
    }
}

pub open spec fn is_count_key(k: Seq<char>) -> bool {
    ||| k == "niterations"@
    ||| k == "populations"@
    ||| k == "population_size"@
    ||| k == "cycles"@
    ||| k == "optimizer_iterations"@
    ||| k == "maxsize"@
    ||| k == "maxdepth"@
    ||| k == "max_delay"@
}

/// The settings after one configuration entry.
pub open spec fn config_entry(a: ArgsView, key: Seq<char>, v: ConfigValueView) -> Result<
    ArgsView,
    CliErrorView,
> {
    let k = dash_to_underscore(key);
    if k == "train"@ {
        match expect_string(key, v) {
            Ok(s) => Ok(ArgsView { train: s, ..a }),
            Err(e) => Err(e),
        }
    } else if k == "test"@ {
        match expect_string(key, v) {
            Ok(s) => Ok(ArgsView { test: Some(s), ..a }),
            Err(e) => Err(e),
        }
    } else if k == "target"@ {
        match expect_string(key, v) {
            Ok(s) => Ok(ArgsView { target: s, ..a }),
            Err(e) => Err(e),
        }
    } else if k == "features"@ {
        match expect_string_array(key, v) {
            Ok(s) => Ok(ArgsView { features: Some(s), ..a }),
            Err(e) => Err(e),
        }
    } else if k == "weight"@ {
        match expect_string(key, v) {
            Ok(s) => Ok(ArgsView { weight: Some(s), ..a }),
            Err(e) => Err(e),
        }
    } else if k == "target_low"@ {
        match expect_string(key, v) {
            Ok(s) => Ok(ArgsView { target_low: Some(s), ..a }),
            Err(e) => Err(e),
        }
    } else if k == "target_high"@ {
        match expect_string(key, v) {
            Ok(s) => Ok(ArgsView { target_high: Some(s), ..a }),
            Err(e) => Err(e),
        }
    } else if k == "sequence_id"@ {
        match expect_string(key, v) {
            Ok(s) => Ok(ArgsView { sequence_id: Some(s), ..a }),
            Err(e) => Err(e),
        }
    } else if is_count_key(k) {
        count_entry(a, key, v, k)
    } else if k == "delay_probability"@ {
        match expect_real_text(key, v) {
            Ok(s) => Ok(ArgsView { delay_probability: s, ..a }),
            Err(e) => Err(e),
        }
    } else if k == "parsimony"@ {
        match expect_real_text(key, v) {
            Ok(s) => Ok(ArgsView { parsimony: s, ..a }),
            Err(e) => Err(e),
        }
    } else if k == "seed"@ {
        match expect_number(key, v, u64::MAX as nat) {
            Ok(n) => Ok(ArgsView { seed: n as u64, ..a }),
            Err(e) => Err(e),
        }
    } else if k == "interval_targets"@ {
        match expect_bool(key, v) {
            Ok(b) => Ok(ArgsView { interval_targets: b, ..a }),
            Err(e) => Err(e),
        }
    } else if k == "unary_operators"@ {
        match expect_operator_array(key, v) {
            Ok(s) => Ok(ArgsView { unary_operators: s, ..a }),
            Err(e) => Err(e),
        }
    } else if k == "binary_operators"@ {
        match expect_operator_array(key, v) {
            Ok(s) => Ok(ArgsView { binary_operators: s, ..a }),
            Err(e) => Err(e),
        }
    } else if k == "selection"@ {
        match expect_string(key, v) {
            Ok(s) => match selection_named(s) {
                Some(sel) => Ok(ArgsView { selection: sel, ..a }),
                None => Err(CliErrorView::BadSelection(s)),
            },
            Err(e) => Err(e),
        }
    } else if k == "config"@ {
        Err(CliErrorView::NestedConfig)
    } else {
        Err(CliErrorView::UnknownConfigKey(k))
    }
}

/// The settings after the configuration entries from position `i` on.
pub open spec fn config_from(
    entries: Seq<(Seq<char>, ConfigValueView)>,
    i: int,
    a: ArgsView,
) -> Result<ArgsView, CliErrorView>
    decreases entries.len() - i,
{
    if i >= entries.len() || i < 0 {
        Ok(a)
    } else {
        match config_entry(a, entries[i].0, entries[i].1) {
            Ok(a2) => config_from(entries, i + 1, a2),
            Err(e) => Err(e),
        }
    }
}

/// A single configuration entry, applied to the settings `a`.
proof fn lemma_one_entry(a: ArgsView, key: Seq<char>, v: ConfigValueView)
    ensures
        config_from(seq![(key, v)], 0, a) == config_entry(a, key, v),
{
    let e = seq![(key, v)];
    assert(e[0] == (key, v));
    if let Ok(a2) = config_entry(a, key, v) {
        assert(config_from(e, 1, a2) == Ok::<ArgsView, CliErrorView>(a2));
    }
}

/// A count entry with a valid number sets exactly the setting its key names
/// (a `-` in the key read as `_`), and leaves every other setting as it was.
pub proof fn lemma_count_entries_set_their_setting(a: ArgsView, t: Seq<char>, n: nat)
    requires
        parse_unsigned(t, usize::MAX as nat) == Some(n),
    ensures
        config_from(seq![("niterations"@, ConfigValueView::Number(t))], 0, a) == Ok::<ArgsView, CliErrorView>(
            ArgsView { niterations: n as usize, ..a },
        ),
        config_from(seq![("populations"@, ConfigValueView::Number(t))], 0, a) == Ok::<ArgsView, CliErrorView>(
            ArgsView { populations: n as usize, ..a },
        ),
        config_from(seq![("population_size"@, ConfigValueView::Number(t))], 0, a) == Ok::<ArgsView, CliErrorView>(
            ArgsView { population_size: n as usize, ..a },
        ),
        config_from(seq![("population-size"@, ConfigValueView::Number(t))], 0, a) == Ok::<ArgsView, CliErrorView>(
            ArgsView { population_size: n as usize, ..a },
        ),
        config_from(seq![("cycles"@, ConfigValueView::Number(t))], 0, a) == Ok::<ArgsView, CliErrorView>(
            ArgsView { cycles: n as usize, ..a },
        ),
        config_from(seq![("optimizer_iterations"@, ConfigValueView::Number(t))], 0, a) == Ok::<ArgsView, CliErrorView>(
            ArgsView { optimizer_iterations: n as usize, ..a },
        ),
        config_from(seq![("optimizer-iterations"@, ConfigValueView::Number(t))], 0, a) == Ok::<ArgsView, CliErrorView>(
            ArgsView { optimizer_iterations: n as usize, ..a },
        ),
        config_from(seq![("maxsize"@, ConfigValueView::Number(t))], 0, a) == Ok::<ArgsView, CliErrorView>(
            ArgsView { maxsize: n as usize, ..a },
        ),
        config_from(seq![("maxdepth"@, ConfigValueView::Number(t))], 0, a) == Ok::<ArgsView, CliErrorView>(
            ArgsView { maxdepth: n as usize, ..a },
        ),
        config_from(seq![("max_delay"@, ConfigValueView::Number(t))], 0, a) == Ok::<ArgsView, CliErrorView>(
            ArgsView { max_delay: n as usize, ..a },
        ),
        config_from(seq![("max-delay"@, ConfigValueView::Number(t))], 0, a) == Ok::<ArgsView, CliErrorView>(
            ArgsView { max_delay: n as usize, ..a },
        ),
{
    reveal_strlit("train");
    reveal_strlit("test");
    reveal_strlit("target");
    reveal_strlit("features");
    reveal_strlit("weight");
    reveal_strlit("target_low");
    reveal_strlit("target_high");
    reveal_strlit("sequence_id");
    reveal_strlit("niterations");
    reveal_strlit("populations");
    reveal_strlit("population_size");
    reveal_strlit("cycles");
    reveal_strlit("optimizer_iterations");
    reveal_strlit("maxsize");
    reveal_strlit("maxdepth");
    reveal_strlit("max_delay");
    assert(dash_to_underscore("niterations"@) =~= "niterations"@);
    assert("niterations"@.len() != "train"@.len());
    assert("niterations"@.len() != "test"@.len());
    assert("niterations"@.len() != "target"@.len());
    assert("niterations"@.len() != "features"@.len());
    assert("niterations"@.len() != "weight"@.len());
    assert("niterations"@.len() != "target_low"@.len());
    assert("niterations"@[0] != "target_high"@[0]);
    assert("niterations"@[0] != "sequence_id"@[0]);
    lemma_one_entry(a, "niterations"@, ConfigValueView::Number(t));
    assert(dash_to_underscore("populations"@) =~= "populations"@);
    assert("populations"@.len() != "train"@.len());
    assert("populations"@.len() != "test"@.len());
    assert("populations"@.len() != "target"@.len());
    assert("populations"@.len() != "features"@.len());
    assert("populations"@.len() != "weight"@.len());
    assert("populations"@.len() != "target_low"@.len());
    assert("populations"@[0] != "target_high"@[0]);
    assert("populations"@[0] != "sequence_id"@[0]);
    assert("populations"@[0] != "niterations"@[0]);
    lemma_one_entry(a, "populations"@, ConfigValueView::Number(t));
    assert(dash_to_underscore("population_size"@) =~= "population_size"@);
    assert("population_size"@.len() != "train"@.len());
    assert("population_size"@.len() != "test"@.len());
    assert("population_size"@.len() != "target"@.len());
    assert("population_size"@.len() != "features"@.len());
    assert("population_size"@.len() != "weight"@.len());
    assert("population_size"@.len() != "target_low"@.len());
    assert("population_size"@.len() != "target_high"@.len());
    assert("population_size"@.len() != "sequence_id"@.len());
    assert("population_size"@.len() != "niterations"@.len());
    assert("population_size"@.len() != "populations"@.len());
    lemma_one_entry(a, "population_size"@, ConfigValueView::Number(t));
    reveal_strlit("population-size");
    assert(dash_to_underscore("population-size"@) =~= "population_size"@);
    assert("population_size"@.len() != "train"@.len());
    assert("population_size"@.len() != "test"@.len());
    assert("population_size"@.len() != "target"@.len());
    assert("population_size"@.len() != "features"@.len());
    assert("population_size"@.len() != "weight"@.len());
    assert("population_size"@.len() != "target_low"@.len());
    assert("population_size"@.len() != "target_high"@.len());
    assert("population_size"@.len() != "sequence_id"@.len());
    assert("population_size"@.len() != "niterations"@.len());
    assert("population_size"@.len() != "populations"@.len());
    lemma_one_entry(a, "population-size"@, ConfigValueView::Number(t));
    assert(dash_to_underscore("cycles"@) =~= "cycles"@);
    assert("cycles"@.len() != "train"@.len());
    assert("cycles"@.len() != "test"@.len());
    assert("cycles"@[0] != "target"@[0]);
    assert("cycles"@.len() != "features"@.len());
    assert("cycles"@[0] != "weight"@[0]);
    assert("cycles"@.len() != "target_low"@.len());
    assert("cycles"@.len() != "target_high"@.len());
    assert("cycles"@.len() != "sequence_id"@.len());
    assert("cycles"@.len() != "niterations"@.len());
    assert("cycles"@.len() != "populations"@.len());
    assert("cycles"@.len() != "population_size"@.len());
    lemma_one_entry(a, "cycles"@, ConfigValueView::Number(t));
    assert(dash_to_underscore("optimizer_iterations"@) =~= "optimizer_iterations"@);
    assert("optimizer_iterations"@.len() != "train"@.len());
    assert("optimizer_iterations"@.len() != "test"@.len());
    assert("optimizer_iterations"@.len() != "target"@.len());
    assert("optimizer_iterations"@.len() != "features"@.len());
    assert("optimizer_iterations"@.len() != "weight"@.len());
    assert("optimizer_iterations"@.len() != "target_low"@.len());
    assert("optimizer_iterations"@.len() != "target_high"@.len());
    assert("optimizer_iterations"@.len() != "sequence_id"@.len());
    assert("optimizer_iterations"@.len() != "niterations"@.len());
    assert("optimizer_iterations"@.len() != "populations"@.len());
    assert("optimizer_iterations"@.len() != "population_size"@.len());
    assert("optimizer_iterations"@.len() != "cycles"@.len());
    lemma_one_entry(a, "optimizer_iterations"@, ConfigValueView::Number(t));
    reveal_strlit("optimizer-iterations");
    assert(dash_to_underscore("optimizer-iterations"@) =~= "optimizer_iterations"@);
    assert("optimizer_iterations"@.len() != "train"@.len());
    assert("optimizer_iterations"@.len() != "test"@.len());
    assert("optimizer_iterations"@.len() != "target"@.len());
    assert("optimizer_iterations"@.len() != "features"@.len());
    assert("optimizer_iterations"@.len() != "weight"@.len());
    assert("optimizer_iterations"@.len() != "target_low"@.len());
    assert("optimizer_iterations"@.len() != "target_high"@.len());
    assert("optimizer_iterations"@.len() != "sequence_id"@.len());
    assert("optimizer_iterations"@.len() != "niterations"@.len());
    assert("optimizer_iterations"@.len() != "populations"@.len());
    assert("optimizer_iterations"@.len() != "population_size"@.len());
    assert("optimizer_iterations"@.len() != "cycles"@.len());
    lemma_one_entry(a, "optimizer-iterations"@, ConfigValueView::Number(t));
    assert(dash_to_underscore("maxsize"@) =~= "maxsize"@);
    assert("maxsize"@.len() != "train"@.len());
    assert("maxsize"@.len() != "test"@.len());
    assert("maxsize"@.len() != "target"@.len());
    assert("maxsize"@.len() != "features"@.len());
    assert("maxsize"@.len() != "weight"@.len());
    assert("maxsize"@.len() != "target_low"@.len());
    assert("maxsize"@.len() != "target_high"@.len());
    assert("maxsize"@.len() != "sequence_id"@.len());
    assert("maxsize"@.len() != "niterations"@.len());
    assert("maxsize"@.len() != "populations"@.len());
    assert("maxsize"@.len() != "population_size"@.len());
    assert("maxsize"@.len() != "cycles"@.len());
    assert("maxsize"@.len() != "optimizer_iterations"@.len());
    lemma_one_entry(a, "maxsize"@, ConfigValueView::Number(t));
    assert(dash_to_underscore("maxdepth"@) =~= "maxdepth"@);
    assert("maxdepth"@.len() != "train"@.len());
    assert("maxdepth"@.len() != "test"@.len());
    assert("maxdepth"@.len() != "target"@.len());
    assert("maxdepth"@[0] != "features"@[0]);
    assert("maxdepth"@.len() != "weight"@.len());
    assert("maxdepth"@.len() != "target_low"@.len());
    assert("maxdepth"@.len() != "target_high"@.len());
    assert("maxdepth"@.len() != "sequence_id"@.len());
    assert("maxdepth"@.len() != "niterations"@.len());
    assert("maxdepth"@.len() != "populations"@.len());
    assert("maxdepth"@.len() != "population_size"@.len());
    assert("maxdepth"@.len() != "cycles"@.len());
    assert("maxdepth"@.len() != "optimizer_iterations"@.len());
    assert("maxdepth"@.len() != "maxsize"@.len());
    lemma_one_entry(a, "maxdepth"@, ConfigValueView::Number(t));
    assert(dash_to_underscore("max_delay"@) =~= "max_delay"@);
    assert("max_delay"@.len() != "train"@.len());
    assert("max_delay"@.len() != "test"@.len());
    assert("max_delay"@.len() != "target"@.len());
    assert("max_delay"@.len() != "features"@.len());
    assert("max_delay"@.len() != "weight"@.len());
    assert("max_delay"@.len() != "target_low"@.len());
    assert("max_delay"@.len() != "target_high"@.len());
    assert("max_delay"@.len() != "sequence_id"@.len());
    assert("max_delay"@.len() != "niterations"@.len());
    assert("max_delay"@.len() != "populations"@.len());
    assert("max_delay"@.len() != "population_size"@.len());
    assert("max_delay"@.len() != "cycles"@.len());
    assert("max_delay"@.len() != "optimizer_iterations"@.len());
    assert("max_delay"@.len() != "maxsize"@.len());
    assert("max_delay"@.len() != "maxdepth"@.len());
    lemma_one_entry(a, "max_delay"@, ConfigValueView::Number(t));
    reveal_strlit("max-delay");
    assert(dash_to_underscore("max-delay"@) =~= "max_delay"@);
    assert("max_delay"@.len() != "train"@.len());
    assert("max_delay"@.len() != "test"@.len());
    assert("max_delay"@.len() != "target"@.len());
    assert("max_delay"@.len() != "features"@.len());
    assert("max_delay"@.len() != "weight"@.len());
    assert("max_delay"@.len() != "target_low"@.len());
    assert("max_delay"@.len() != "target_high"@.len());
    assert("max_delay"@.len() != "sequence_id"@.len());
    assert("max_delay"@.len() != "niterations"@.len());
    assert("max_delay"@.len() != "populations"@.len());
    assert("max_delay"@.len() != "population_size"@.len());
    assert("max_delay"@.len() != "cycles"@.len());
    assert("max_delay"@.len() != "optimizer_iterations"@.len());
    assert("max_delay"@.len() != "maxsize"@.len());
    assert("max_delay"@.len() != "maxdepth"@.len());
    lemma_one_entry(a, "max-delay"@, ConfigValueView::Number(t));
}

/// An entry that names a column or a file, given as a string, sets exactly
/// that setting to the string, and leaves every other setting as it was.
pub proof fn lemma_text_entries_set_their_setting(a: ArgsView, v: Seq<char>)
    ensures
        config_from(seq![("train"@, ConfigValueView::String(v))], 0, a) == Ok::<ArgsView, CliErrorView>(
            ArgsView { train: v, ..a },
        ),
        config_from(seq![("test"@, ConfigValueView::String(v))], 0, a) == Ok::<ArgsView, CliErrorView>(
            ArgsView { test: Some(v), ..a },
        ),
        config_from(seq![("target"@, ConfigValueView::String(v))], 0, a) == Ok::<ArgsView, CliErrorView>(
            ArgsView { target: v, ..a },
        ),
        config_from(seq![("weight"@, ConfigValueView::String(v))], 0, a) == Ok::<ArgsView, CliErrorView>(
            ArgsView { weight: Some(v), ..a },
        ),
        config_from(seq![("target_low"@, ConfigValueView::String(v))], 0, a) == Ok::<ArgsView, CliErrorView>(
            ArgsView { target_low: Some(v), ..a },
        ),
        config_from(seq![("target-low"@, ConfigValueView::String(v))], 0, a) == Ok::<ArgsView, CliErrorView>(
            ArgsView { target_low: Some(v), ..a },
        ),
        config_from(seq![("target_high"@, ConfigValueView::String(v))], 0, a) == Ok::<ArgsView, CliErrorView>(
            ArgsView { target_high: Some(v), ..a },
        ),
        config_from(seq![("target-high"@, ConfigValueView::String(v))], 0, a) == Ok::<ArgsView, CliErrorView>(
            ArgsView { target_high: Some(v), ..a },
        ),
        config_from(seq![("sequence_id"@, ConfigValueView::String(v))], 0, a) == Ok::<ArgsView, CliErrorView>(
            ArgsView { sequence_id: Some(v), ..a },
        ),
        config_from(seq![("sequence-id"@, ConfigValueView::String(v))], 0, a) == Ok::<ArgsView, CliErrorView>(
            ArgsView { sequence_id: Some(v), ..a },
        ),
{
    reveal_strlit("train");
    reveal_strlit("test");
    reveal_strlit("target");
    reveal_strlit("features");
    reveal_strlit("weight");
    reveal_strlit("target_low");
    reveal_strlit("target_high");
    reveal_strlit("sequence_id");
    reveal_strlit("niterations");
    reveal_strlit("populations");
    reveal_strlit("population_size");
    reveal_strlit("cycles");
    reveal_strlit("optimizer_iterations");
    reveal_strlit("maxsize");
    reveal_strlit("maxdepth");
    reveal_strlit("max_delay");
    assert(dash_to_underscore("train"@) =~= "train"@);
    lemma_one_entry(a, "train"@, ConfigValueView::String(v));
    assert(dash_to_underscore("test"@) =~= "test"@);
    assert("test"@.len() != "train"@.len());
    lemma_one_entry(a, "test"@, ConfigValueView::String(v));
    assert(dash_to_underscore("target"@) =~= "target"@);
    assert("target"@.len() != "train"@.len());
    assert("target"@.len() != "test"@.len());
    lemma_one_entry(a, "target"@, ConfigValueView::String(v));
    assert(dash_to_underscore("weight"@) =~= "weight"@);
    assert("weight"@.len() != "train"@.len());
    assert("weight"@.len() != "test"@.len());
    assert("weight"@[0] != "target"@[0]);
    assert("weight"@.len() != "features"@.len());
    lemma_one_entry(a, "weight"@, ConfigValueView::String(v));
    assert(dash_to_underscore("target_low"@) =~= "target_low"@);
    assert("target_low"@.len() != "train"@.len());
    assert("target_low"@.len() != "test"@.len());
    assert("target_low"@.len() != "target"@.len());
    assert("target_low"@.len() != "features"@.len());
    assert("target_low"@.len() != "weight"@.len());
    lemma_one_entry(a, "target_low"@, ConfigValueView::String(v));
    reveal_strlit("target-low");
    assert(dash_to_underscore("target-low"@) =~= "target_low"@);
    assert("target_low"@.len() != "train"@.len());
    assert("target_low"@.len() != "test"@.len());
    assert("target_low"@.len() != "target"@.len());
    assert("target_low"@.len() != "features"@.len());
    assert("target_low"@.len() != "weight"@.len());
    lemma_one_entry(a, "target-low"@, ConfigValueView::String(v));
    assert(dash_to_underscore("target_high"@) =~= "target_high"@);
    assert("target_high"@.len() != "train"@.len());
    assert("target_high"@.len() != "test"@.len());
    assert("target_high"@.len() != "target"@.len());
    assert("target_high"@.len() != "features"@.len());
    assert("target_high"@.len() != "weight"@.len());
    assert("target_high"@.len() != "target_low"@.len());
    lemma_one_entry(a, "target_high"@, ConfigValueView::String(v));
    reveal_strlit("target-high");
    assert(dash_to_underscore("target-high"@) =~= "target_high"@);
    assert("target_high"@.len() != "train"@.len());
    assert("target_high"@.len() != "test"@.len());
    assert("target_high"@.len() != "target"@.len());
    assert("target_high"@.len() != "features"@.len());
    assert("target_high"@.len() != "weight"@.len());
    assert("target_high"@.len() != "target_low"@.len());
    lemma_one_entry(a, "target-high"@, ConfigValueView::String(v));
    assert(dash_to_underscore("sequence_id"@) =~= "sequence_id"@);
    assert("sequence_id"@.len() != "train"@.len());
    assert("sequence_id"@.len() != "test"@.len());
    assert("sequence_id"@.len() != "target"@.len());
    assert("sequence_id"@.len() != "features"@.len());
    assert("sequence_id"@.len() != "weight"@.len());
    assert("sequence_id"@.len() != "target_low"@.len());
    assert("sequence_id"@[0] != "target_high"@[0]);
    lemma_one_entry(a, "sequence_id"@, ConfigValueView::String(v));
    reveal_strlit("sequence-id");
    assert(dash_to_underscore("sequence-id"@) =~= "sequence_id"@);
    assert("sequence_id"@.len() != "train"@.len());
    assert("sequence_id"@.len() != "test"@.len());
    assert("sequence_id"@.len() != "target"@.len());
    assert("sequence_id"@.len() != "features"@.len());
    assert("sequence_id"@.len() != "weight"@.len());
    assert("sequence_id"@.len() != "target_low"@.len());
    assert("sequence_id"@[0] != "target_high"@[0]);
    lemma_one_entry(a, "sequence-id"@, ConfigValueView::String(v));
}

/// The other flags that take a value set exactly the setting they name:
/// the seed, the two real numbers (kept as their text), the feature list,
/// the two operator lists and the selection; every other setting is left
/// as it was.
pub proof fn lemma_other_flags_set_their_setting(a: ArgsView, v: Seq<char>, n: nat, sel: Selection)
    ensures
        parse_unsigned(v, u64::MAX as nat) == Some(n) ==> command_line_from(seq!["--seed"@, v], 0, a) == Ok::<(ArgsView, bool), CliErrorView>(
            (ArgsView { seed: n as u64, ..a }, false),
        ),
        is_float_text(v) ==> command_line_from(seq!["--delay-probability"@, v], 0, a) == Ok::<(ArgsView, bool), CliErrorView>(
            (ArgsView { delay_probability: v, ..a }, false),
        ),
        is_float_text(v) ==> command_line_from(seq!["--parsimony"@, v], 0, a) == Ok::<(ArgsView, bool), CliErrorView>(
            (ArgsView { parsimony: v, ..a }, false),
        ),
        true ==> command_line_from(seq!["--features"@, v], 0, a) == Ok::<(ArgsView, bool), CliErrorView>(
            (ArgsView { features: Some(csv_list(v)), ..a }, false),
        ),
        true ==> command_line_from(seq!["--unary-operators"@, v], 0, a) == Ok::<(ArgsView, bool), CliErrorView>(
            (ArgsView { unary_operators: operator_list(v), ..a }, false),
        ),
        true ==> command_line_from(seq!["--binary-operators"@, v], 0, a) == Ok::<(ArgsView, bool), CliErrorView>(
            (ArgsView { binary_operators: operator_list(v), ..a }, false),
        ),
        selection_named(v) == Some(sel) ==> command_line_from(seq!["--selection"@, v], 0, a) == Ok::<(ArgsView, bool), CliErrorView>(
            (ArgsView { selection: sel, ..a }, false),
        ),
        !is_float_text(v) ==> command_line_from(seq!["--parsimony"@, v], 0, a) == Err::<(ArgsView, bool), CliErrorView>(
            CliErrorView::BadValue("--parsimony"@),
        ),
        !is_float_text(v) ==> command_line_from(seq!["--delay-probability"@, v], 0, a) == Err::<(ArgsView, bool), CliErrorView>(
            CliErrorView::BadValue("--delay-probability"@),
        ),
{
    reveal_strlit("--train");
    reveal_strlit("--test");
    reveal_strlit("--target");
    reveal_strlit("--features");
    reveal_strlit("--weight");
    reveal_strlit("--target-low");
    reveal_strlit("--target-high");
    reveal_strlit("--sequence-id");
    reveal_strlit("--niterations");
    reveal_strlit("--populations");
    reveal_strlit("--population-size");
    reveal_strlit("--cycles");
    reveal_strlit("--optimizer-iterations");
    reveal_strlit("--maxsize");
    reveal_strlit("--maxdepth");
    reveal_strlit("--max-delay");
    reveal_strlit("--delay-probability");
    reveal_strlit("--parsimony");
    reveal_strlit("--seed");
    reveal_strlit("--unary-operators");
    reveal_strlit("--binary-operators");
    reveal_strlit("--selection");
    reveal_strlit("--config");
    reveal_strlit("--interval-targets");
    reveal_strlit("--help");
    reveal_strlit("-h");
    assert("--seed"@.len() != "--train"@.len());
    assert("--seed"@[2] != "--test"@[2]);
    assert("--seed"@.len() != "--target"@.len());
    assert("--seed"@.len() != "--features"@.len());
    assert("--seed"@.len() != "--weight"@.len());
    assert("--seed"@.len() != "--target-low"@.len());
    assert("--seed"@.len() != "--target-high"@.len());
    assert("--seed"@.len() != "--sequence-id"@.len());
    assert("--seed"@.len() != "--niterations"@.len());
    assert("--seed"@.len() != "--populations"@.len());
    assert("--seed"@.len() != "--population-size"@.len());
    assert("--seed"@.len() != "--cycles"@.len());
    assert("--seed"@.len() != "--optimizer-iterations"@.len());
    assert("--seed"@.len() != "--maxsize"@.len());
    assert("--seed"@.len() != "--maxdepth"@.len());
    assert("--seed"@.len() != "--max-delay"@.len());
    assert("--seed"@.len() != "--delay-probability"@.len());
    assert("--seed"@.len() != "--parsimony"@.len());
    assert("--seed"@.len() != "--config"@.len());
    assert("--seed"@.len() != "--interval-targets"@.len());
    assert("--seed"@[2] != "--help"@[2]);
    assert("--seed"@.len() != "-h"@.len());
    lemma_one_flag(a, "--seed"@, v);
    assert("--delay-probability"@.len() != "--train"@.len());
    assert("--delay-probability"@.len() != "--test"@.len());
    assert("--delay-probability"@.len() != "--target"@.len());
    assert("--delay-probability"@.len() != "--features"@.len());
    assert("--delay-probability"@.len() != "--weight"@.len());
    assert("--delay-probability"@.len() != "--target-low"@.len());
    assert("--delay-probability"@.len() != "--target-high"@.len());
    assert("--delay-probability"@.len() != "--sequence-id"@.len());
    assert("--delay-probability"@.len() != "--niterations"@.len());
    assert("--delay-probability"@.len() != "--populations"@.len());
    assert("--delay-probability"@.len() != "--population-size"@.len());
    assert("--delay-probability"@.len() != "--cycles"@.len());
    assert("--delay-probability"@.len() != "--optimizer-iterations"@.len());
    assert("--delay-probability"@.len() != "--maxsize"@.len());
    assert("--delay-probability"@.len() != "--maxdepth"@.len());
    assert("--delay-probability"@.len() != "--max-delay"@.len());
    assert("--delay-probability"@.len() != "--config"@.len());
    assert("--delay-probability"@.len() != "--interval-targets"@.len());
    assert("--delay-probability"@.len() != "--help"@.len());
    assert("--delay-probability"@.len() != "-h"@.len());
    lemma_one_flag(a, "--delay-probability"@, v);
    assert("--parsimony"@.len() != "--train"@.len());
    assert("--parsimony"@.len() != "--test"@.len());
    assert("--parsimony"@.len() != "--target"@.len());
    assert("--parsimony"@.len() != "--features"@.len());
    assert("--parsimony"@.len() != "--weight"@.len());
    assert("--parsimony"@.len() != "--target-low"@.len());
    assert("--parsimony"@.len() != "--target-high"@.len());
    assert("--parsimony"@.len() != "--sequence-id"@.len());
    assert("--parsimony"@.len() != "--niterations"@.len());
    assert("--parsimony"@.len() != "--populations"@.len());
    assert("--parsimony"@.len() != "--population-size"@.len());
    assert("--parsimony"@.len() != "--cycles"@.len());
    assert("--parsimony"@.len() != "--optimizer-iterations"@.len());
    assert("--parsimony"@.len() != "--maxsize"@.len());
    assert("--parsimony"@.len() != "--maxdepth"@.len());
    assert("--parsimony"@[2] != "--max-delay"@[2]);
    assert("--parsimony"@.len() != "--delay-probability"@.len());
    assert("--parsimony"@.len() != "--config"@.len());
    assert("--parsimony"@.len() != "--interval-targets"@.len());
    assert("--parsimony"@.len() != "--help"@.len());
    assert("--parsimony"@.len() != "-h"@.len());
    lemma_one_flag(a, "--parsimony"@, v);
    assert("--features"@.len() != "--train"@.len());
    assert("--features"@.len() != "--test"@.len());
    assert("--features"@.len() != "--target"@.len());
    assert("--features"@.len() != "--config"@.len());
    assert("--features"@.len() != "--interval-targets"@.len());
    assert("--features"@.len() != "--help"@.len());
    assert("--features"@.len() != "-h"@.len());
    lemma_one_flag(a, "--features"@, v);
    assert("--unary-operators"@.len() != "--train"@.len());
    assert("--unary-operators"@.len() != "--test"@.len());
    assert("--unary-operators"@.len() != "--target"@.len());
    assert("--unary-operators"@.len() != "--features"@.len());
    assert("--unary-operators"@.len() != "--weight"@.len());
    assert("--unary-operators"@.len() != "--target-low"@.len());
    assert("--unary-operators"@.len() != "--target-high"@.len());
    assert("--unary-operators"@.len() != "--sequence-id"@.len());
    assert("--unary-operators"@.len() != "--niterations"@.len());
    assert("--unary-operators"@.len() != "--populations"@.len());
    assert("--unary-operators"@[2] != "--population-size"@[2]);
    assert("--unary-operators"@.len() != "--cycles"@.len());
    assert("--unary-operators"@.len() != "--optimizer-iterations"@.len());
    assert("--unary-operators"@.len() != "--maxsize"@.len());
    assert("--unary-operators"@.len() != "--maxdepth"@.len());
    assert("--unary-operators"@.len() != "--max-delay"@.len());
    assert("--unary-operators"@.len() != "--delay-probability"@.len());
    assert("--unary-operators"@.len() != "--parsimony"@.len());
    assert("--unary-operators"@.len() != "--seed"@.len());
    assert("--unary-operators"@.len() != "--config"@.len());
    assert("--unary-operators"@.len() != "--interval-targets"@.len());
    assert("--unary-operators"@.len() != "--help"@.len());
    assert("--unary-operators"@.len() != "-h"@.len());
    lemma_one_flag(a, "--unary-operators"@, v);
    assert("--binary-operators"@.len() != "--train"@.len());
    assert("--binary-operators"@.len() != "--test"@.len());
    assert("--binary-operators"@.len() != "--target"@.len());
    assert("--binary-operators"@.len() != "--features"@.len());
    assert("--binary-operators"@.len() != "--weight"@.len());
    assert("--binary-operators"@.len() != "--target-low"@.len());
    assert("--binary-operators"@.len() != "--target-high"@.len());
    assert("--binary-operators"@.len() != "--sequence-id"@.len());
    assert("--binary-operators"@.len() != "--niterations"@.len());
    assert("--binary-operators"@.len() != "--populations"@.len());
    assert("--binary-operators"@.len() != "--population-size"@.len());
    assert("--binary-operators"@.len() != "--cycles"@.len());
    assert("--binary-operators"@.len() != "--optimizer-iterations"@.len());
    assert("--binary-operators"@.len() != "--maxsize"@.len());
    assert("--binary-operators"@.len() != "--maxdepth"@.len());
    assert("--binary-operators"@.len() != "--max-delay"@.len());
    assert("--binary-operators"@.len() != "--delay-probability"@.len());
    assert("--binary-operators"@.len() != "--parsimony"@.len());
    assert("--binary-operators"@.len() != "--seed"@.len());
    assert("--binary-operators"@.len() != "--unary-operators"@.len());
    assert("--binary-operators"@.len() != "--config"@.len());
    assert("--binary-operators"@[2] != "--interval-targets"@[2]);
    assert("--binary-operators"@.len() != "--help"@.len());
    assert("--binary-operators"@.len() != "-h"@.len());
    lemma_one_flag(a, "--binary-operators"@, v);
    assert("--selection"@.len() != "--train"@.len());
    assert("--selection"@.len() != "--test"@.len());
    assert("--selection"@.len() != "--target"@.len());
    assert("--selection"@.len() != "--features"@.len());
    assert("--selection"@.len() != "--weight"@.len());
    assert("--selection"@.len() != "--target-low"@.len());
    assert("--selection"@.len() != "--target-high"@.len());
    assert("--selection"@.len() != "--sequence-id"@.len());
    assert("--selection"@.len() != "--niterations"@.len());
    assert("--selection"@.len() != "--populations"@.len());
    assert("--selection"@.len() != "--population-size"@.len());
    assert("--selection"@.len() != "--cycles"@.len());
    assert("--selection"@.len() != "--optimizer-iterations"@.len());
    assert("--selection"@.len() != "--maxsize"@.len());
    assert("--selection"@.len() != "--maxdepth"@.len());
    assert("--selection"@[2] != "--max-delay"@[2]);
    assert("--selection"@.len() != "--delay-probability"@.len());
    assert("--selection"@[2] != "--parsimony"@[2]);
    assert("--selection"@.len() != "--seed"@.len());
    assert("--selection"@.len() != "--unary-operators"@.len());
    assert("--selection"@.len() != "--binary-operators"@.len());
    assert("--selection"@.len() != "--config"@.len());
    assert("--selection"@.len() != "--interval-targets"@.len());
    assert("--selection"@.len() != "--help"@.len());
    assert("--selection"@.len() != "-h"@.len());
    lemma_one_flag(a, "--selection"@, v);
}

/// The other configuration entries set exactly the setting their key names
/// (a `-` read as `_`): the seed, the two real numbers (kept as their text),
/// interval targets, the feature list, the two operator lists and the
/// selection; every other setting is left as it was.
pub proof fn lemma_other_entries_set_their_setting(
    a: ArgsView,
    t: Seq<char>,
    n: nat,
    flag: bool,
    xs: Seq<Seq<char>>,
    sel: Selection,
)
    ensures
        parse_unsigned(t, u64::MAX as nat) == Some(n) ==> config_from(seq![("seed"@, ConfigValueView::Number(t))], 0, a) == Ok::<ArgsView, CliErrorView>(
            ArgsView { seed: n as u64, ..a },
        ),
        is_float_text(t) ==> config_from(seq![("delay_probability"@, ConfigValueView::Number(t))], 0, a) == Ok::<ArgsView, CliErrorView>(
            ArgsView { delay_probability: t, ..a },
        ),
        is_float_text(t) ==> config_from(seq![("delay-probability"@, ConfigValueView::Number(t))], 0, a) == Ok::<ArgsView, CliErrorView>(
            ArgsView { delay_probability: t, ..a },
        ),
        is_float_text(t) ==> config_from(seq![("parsimony"@, ConfigValueView::Number(t))], 0, a) == Ok::<ArgsView, CliErrorView>(
            ArgsView { parsimony: t, ..a },
        ),
        true ==> config_from(seq![("interval_targets"@, ConfigValueView::Bool(flag))], 0, a) == Ok::<ArgsView, CliErrorView>(
            ArgsView { interval_targets: flag, ..a },
        ),
        true ==> config_from(seq![("interval-targets"@, ConfigValueView::Bool(flag))], 0, a) == Ok::<ArgsView, CliErrorView>(
            ArgsView { interval_targets: flag, ..a },
        ),
        true ==> config_from(seq![("features"@, ConfigValueView::StringArray(xs))], 0, a) == Ok::<ArgsView, CliErrorView>(
            ArgsView { features: Some(xs), ..a },
        ),
        true ==> config_from(seq![("unary_operators"@, ConfigValueView::StringArray(xs))], 0, a) == Ok::<ArgsView, CliErrorView>(
            ArgsView { unary_operators: xs.map_values(|p: Seq<char>| normalized_operator(p)), ..a },
        ),
        true ==> config_from(seq![("unary-operators"@, ConfigValueView::StringArray(xs))], 0, a) == Ok::<ArgsView, CliErrorView>(
            ArgsView { unary_operators: xs.map_values(|p: Seq<char>| normalized_operator(p)), ..a },
        ),
        true ==> config_from(seq![("binary_operators"@, ConfigValueView::StringArray(xs))], 0, a) == Ok::<ArgsView, CliErrorView>(
            ArgsView { binary_operators: xs.map_values(|p: Seq<char>| normalized_operator(p)), ..a },
        ),
        true ==> config_from(seq![("binary-operators"@, ConfigValueView::StringArray(xs))], 0, a) == Ok::<ArgsView, CliErrorView>(
            ArgsView { binary_operators: xs.map_values(|p: Seq<char>| normalized_operator(p)), ..a },
        ),
        selection_named(t) == Some(sel) ==> config_from(seq![("selection"@, ConfigValueView::String(t))], 0, a) == Ok::<ArgsView, CliErrorView>(
            ArgsView { selection: sel, ..a },
        ),
{
    reveal_strlit("train");
    reveal_strlit("test");
    reveal_strlit("target");
    reveal_strlit("features");
    reveal_strlit("weight");
    reveal_strlit("target_low");
    reveal_strlit("target_high");
    reveal_strlit("sequence_id");
    reveal_strlit("niterations");
    reveal_strlit("populations");
    reveal_strlit("population_size");
    reveal_strlit("cycles");
    reveal_strlit("optimizer_iterations");
    reveal_strlit("maxsize");
    reveal_strlit("maxdepth");
    reveal_strlit("max_delay");
    reveal_strlit("delay_probability");
    reveal_strlit("parsimony");
    reveal_strlit("seed");
    reveal_strlit("interval_targets");
    reveal_strlit("unary_operators");
    reveal_strlit("binary_operators");
    reveal_strlit("selection");
    reveal_strlit("config");
    assert(dash_to_underscore("seed"@) =~= "seed"@);
    assert("seed"@.len() != "train"@.len());
    assert("seed"@[0] != "test"@[0]);
    assert("seed"@.len() != "target"@.len());
    assert("seed"@.len() != "features"@.len());
    assert("seed"@.len() != "weight"@.len());
    assert("seed"@.len() != "target_low"@.len());
    assert("seed"@.len() != "target_high"@.len());
    assert("seed"@.len() != "sequence_id"@.len());
    assert("seed"@.len() != "niterations"@.len());
    assert("seed"@.len() != "populations"@.len());
    assert("seed"@.len() != "population_size"@.len());
    assert("seed"@.len() != "cycles"@.len());
    assert("seed"@.len() != "optimizer_iterations"@.len());
    assert("seed"@.len() != "maxsize"@.len());
    assert("seed"@.len() != "maxdepth"@.len());
    assert("seed"@.len() != "max_delay"@.len());
    assert("seed"@.len() != "delay_probability"@.len());
    assert("seed"@.len() != "parsimony"@.len());
    lemma_one_entry(a, "seed"@, ConfigValueView::Number(t));
    assert(dash_to_underscore("delay_probability"@) =~= "delay_probability"@);
    assert("delay_probability"@.len() != "train"@.len());
    assert("delay_probability"@.len() != "test"@.len());
    assert("delay_probability"@.len() != "target"@.len());
    assert("delay_probability"@.len() != "features"@.len());
    assert("delay_probability"@.len() != "weight"@.len());
    assert("delay_probability"@.len() != "target_low"@.len());
    assert("delay_probability"@.len() != "target_high"@.len());
    assert("delay_probability"@.len() != "sequence_id"@.len());
    assert("delay_probability"@.len() != "niterations"@.len());
    assert("delay_probability"@.len() != "populations"@.len());
    assert("delay_probability"@.len() != "population_size"@.len());
    assert("delay_probability"@.len() != "cycles"@.len());
    assert("delay_probability"@.len() != "optimizer_iterations"@.len());
    assert("delay_probability"@.len() != "maxsize"@.len());
    assert("delay_probability"@.len() != "maxdepth"@.len());
    assert("delay_probability"@.len() != "max_delay"@.len());
    lemma_one_entry(a, "delay_probability"@, ConfigValueView::Number(t));
    reveal_strlit("delay-probability");
    assert(dash_to_underscore("delay-probability"@) =~= "delay_probability"@);
    assert("delay_probability"@.len() != "train"@.len());
    assert("delay_probability"@.len() != "test"@.len());
    assert("delay_probability"@.len() != "target"@.len());
    assert("delay_probability"@.len() != "features"@.len());
    assert("delay_probability"@.len() != "weight"@.len());
    assert("delay_probability"@.len() != "target_low"@.len());
    assert("delay_probability"@.len() != "target_high"@.len());
    assert("delay_probability"@.len() != "sequence_id"@.len());
    assert("delay_probability"@.len() != "niterations"@.len());
    assert("delay_probability"@.len() != "populations"@.len());
    assert("delay_probability"@.len() != "population_size"@.len());
    assert("delay_probability"@.len() != "cycles"@.len());
    assert("delay_probability"@.len() != "optimizer_iterations"@.len());
    assert("delay_probability"@.len() != "maxsize"@.len());
    assert("delay_probability"@.len() != "maxdepth"@.len());
    assert("delay_probability"@.len() != "max_delay"@.len());
    lemma_one_entry(a, "delay-probability"@, ConfigValueView::Number(t));
    assert(dash_to_underscore("parsimony"@) =~= "parsimony"@);
    assert("parsimony"@.len() != "train"@.len());
    assert("parsimony"@.len() != "test"@.len());
    assert("parsimony"@.len() != "target"@.len());
    assert("parsimony"@.len() != "features"@.len());
    assert("parsimony"@.len() != "weight"@.len());
    assert("parsimony"@.len() != "target_low"@.len());
    assert("parsimony"@.len() != "target_high"@.len());
    assert("parsimony"@.len() != "sequence_id"@.len());
    assert("parsimony"@.len() != "niterations"@.len());
    assert("parsimony"@.len() != "populations"@.len());
    assert("parsimony"@.len() != "population_size"@.len());
    assert("parsimony"@.len() != "cycles"@.len());
    assert("parsimony"@.len() != "optimizer_iterations"@.len());
    assert("parsimony"@.len() != "maxsize"@.len());
    assert("parsimony"@.len() != "maxdepth"@.len());
    assert("parsimony"@[0] != "max_delay"@[0]);
    assert("parsimony"@.len() != "delay_probability"@.len());
    lemma_one_entry(a, "parsimony"@, ConfigValueView::Number(t));
    assert(dash_to_underscore("interval_targets"@) =~= "interval_targets"@);
    assert("interval_targets"@.len() != "train"@.len());
    assert("interval_targets"@.len() != "test"@.len());
    assert("interval_targets"@.len() != "target"@.len());
    assert("interval_targets"@.len() != "features"@.len());
    assert("interval_targets"@.len() != "weight"@.len());
    assert("interval_targets"@.len() != "target_low"@.len());
    assert("interval_targets"@.len() != "target_high"@.len());
    assert("interval_targets"@.len() != "sequence_id"@.len());
    assert("interval_targets"@.len() != "niterations"@.len());
    assert("interval_targets"@.len() != "populations"@.len());
    assert("interval_targets"@.len() != "population_size"@.len());
    assert("interval_targets"@.len() != "cycles"@.len());
    assert("interval_targets"@.len() != "optimizer_iterations"@.len());
    assert("interval_targets"@.len() != "maxsize"@.len());
    assert("interval_targets"@.len() != "maxdepth"@.len());
    assert("interval_targets"@.len() != "max_delay"@.len());
    assert("interval_targets"@.len() != "delay_probability"@.len());
    assert("interval_targets"@.len() != "parsimony"@.len());
    assert("interval_targets"@.len() != "seed"@.len());
    lemma_one_entry(a, "interval_targets"@, ConfigValueView::Bool(flag));
    reveal_strlit("interval-targets");
    assert(dash_to_underscore("interval-targets"@) =~= "interval_targets"@);
    assert("interval_targets"@.len() != "train"@.len());
    assert("interval_targets"@.len() != "test"@.len());
    assert("interval_targets"@.len() != "target"@.len());
    assert("interval_targets"@.len() != "features"@.len());
    assert("interval_targets"@.len() != "weight"@.len());
    assert("interval_targets"@.len() != "target_low"@.len());
    assert("interval_targets"@.len() != "target_high"@.len());
    assert("interval_targets"@.len() != "sequence_id"@.len());
    assert("interval_targets"@.len() != "niterations"@.len());
    assert("interval_targets"@.len() != "populations"@.len());
    assert("interval_targets"@.len() != "population_size"@.len());
    assert("interval_targets"@.len() != "cycles"@.len());
    assert("interval_targets"@.len() != "optimizer_iterations"@.len());
    assert("interval_targets"@.len() != "maxsize"@.len());
    assert("interval_targets"@.len() != "maxdepth"@.len());
    assert("interval_targets"@.len() != "max_delay"@.len());
    assert("interval_targets"@.len() != "delay_probability"@.len());
    assert("interval_targets"@.len() != "parsimony"@.len());
    assert("interval_targets"@.len() != "seed"@.len());
    lemma_one_entry(a, "interval-targets"@, ConfigValueView::Bool(flag));
    assert(dash_to_underscore("features"@) =~= "features"@);
    assert("features"@.len() != "train"@.len());
    assert("features"@.len() != "test"@.len());
    assert("features"@.len() != "target"@.len());
    lemma_one_entry(a, "features"@, ConfigValueView::StringArray(xs));
    assert(dash_to_underscore("unary_operators"@) =~= "unary_operators"@);
    assert("unary_operators"@.len() != "train"@.len());
    assert("unary_operators"@.len() != "test"@.len());
    assert("unary_operators"@.len() != "target"@.len());
    assert("unary_operators"@.len() != "features"@.len());
    assert("unary_operators"@.len() != "weight"@.len());
    assert("unary_operators"@.len() != "target_low"@.len());
    assert("unary_operators"@.len() != "target_high"@.len());
    assert("unary_operators"@.len() != "sequence_id"@.len());
    assert("unary_operators"@.len() != "niterations"@.len());
    assert("unary_operators"@.len() != "populations"@.len());
    assert("unary_operators"@[0] != "population_size"@[0]);
    assert("unary_operators"@.len() != "cycles"@.len());
    assert("unary_operators"@.len() != "optimizer_iterations"@.len());
    assert("unary_operators"@.len() != "maxsize"@.len());
    assert("unary_operators"@.len() != "maxdepth"@.len());
    assert("unary_operators"@.len() != "max_delay"@.len());
    assert("unary_operators"@.len() != "delay_probability"@.len());
    assert("unary_operators"@.len() != "parsimony"@.len());
    assert("unary_operators"@.len() != "seed"@.len());
    assert("unary_operators"@.len() != "interval_targets"@.len());
    lemma_one_entry(a, "unary_operators"@, ConfigValueView::StringArray(xs));
    reveal_strlit("unary-operators");
    assert(dash_to_underscore("unary-operators"@) =~= "unary_operators"@);
    assert("unary_operators"@.len() != "train"@.len());
    assert("unary_operators"@.len() != "test"@.len());
    assert("unary_operators"@.len() != "target"@.len());
    assert("unary_operators"@.len() != "features"@.len());
    assert("unary_operators"@.len() != "weight"@.len());
    assert("unary_operators"@.len() != "target_low"@.len());
    assert("unary_operators"@.len() != "target_high"@.len());
    assert("unary_operators"@.len() != "sequence_id"@.len());
    assert("unary_operators"@.len() != "niterations"@.len());
    assert("unary_operators"@.len() != "populations"@.len());
    assert("unary_operators"@[0] != "population_size"@[0]);
    assert("unary_operators"@.len() != "cycles"@.len());
    assert("unary_operators"@.len() != "optimizer_iterations"@.len());
    assert("unary_operators"@.len() != "maxsize"@.len());
    assert("unary_operators"@.len() != "maxdepth"@.len());
    assert("unary_operators"@.len() != "max_delay"@.len());
    assert("unary_operators"@.len() != "delay_probability"@.len());
    assert("unary_operators"@.len() != "parsimony"@.len());
    assert("unary_operators"@.len() != "seed"@.len());
    assert("unary_operators"@.len() != "interval_targets"@.len());
    lemma_one_entry(a, "unary-operators"@, ConfigValueView::StringArray(xs));
    assert(dash_to_underscore("binary_operators"@) =~= "binary_operators"@);
    assert("binary_operators"@.len() != "train"@.len());
    assert("binary_operators"@.len() != "test"@.len());
    assert("binary_operators"@.len() != "target"@.len());
    assert("binary_operators"@.len() != "features"@.len());
    assert("binary_operators"@.len() != "weight"@.len());
    assert("binary_operators"@.len() != "target_low"@.len());
    assert("binary_operators"@.len() != "target_high"@.len());
    assert("binary_operators"@.len() != "sequence_id"@.len());
    assert("binary_operators"@.len() != "niterations"@.len());
    assert("binary_operators"@.len() != "populations"@.len());
    assert("binary_operators"@.len() != "population_size"@.len());
    assert("binary_operators"@.len() != "cycles"@.len());
    assert("binary_operators"@.len() != "optimizer_iterations"@.len());
    assert("binary_operators"@.len() != "maxsize"@.len());
    assert("binary_operators"@.len() != "maxdepth"@.len());
    assert("binary_operators"@.len() != "max_delay"@.len());
    assert("binary_operators"@.len() != "delay_probability"@.len());
    assert("binary_operators"@.len() != "parsimony"@.len());
    assert("binary_operators"@.len() != "seed"@.len());
    assert("binary_operators"@[0] != "interval_targets"@[0]);
    assert("binary_operators"@.len() != "unary_operators"@.len());
    lemma_one_entry(a, "binary_operators"@, ConfigValueView::StringArray(xs));
    reveal_strlit("binary-operators");
    assert(dash_to_underscore("binary-operators"@) =~= "binary_operators"@);
    assert("binary_operators"@.len() != "train"@.len());
    assert("binary_operators"@.len() != "test"@.len());
    assert("binary_operators"@.len() != "target"@.len());
    assert("binary_operators"@.len() != "features"@.len());
    assert("binary_operators"@.len() != "weight"@.len());
    assert("binary_operators"@.len() != "target_low"@.len());
    assert("binary_operators"@.len() != "target_high"@.len());
    assert("binary_operators"@.len() != "sequence_id"@.len());
    assert("binary_operators"@.len() != "niterations"@.len());
    assert("binary_operators"@.len() != "populations"@.len());
    assert("binary_operators"@.len() != "population_size"@.len());
    assert("binary_operators"@.len() != "cycles"@.len());
    assert("binary_operators"@.len() != "optimizer_iterations"@.len());
    assert("binary_operators"@.len() != "maxsize"@.len());
    assert("binary_operators"@.len() != "maxdepth"@.len());
    assert("binary_operators"@.len() != "max_delay"@.len());
    assert("binary_operators"@.len() != "delay_probability"@.len());
    assert("binary_operators"@.len() != "parsimony"@.len());
    assert("binary_operators"@.len() != "seed"@.len());
    assert("binary_operators"@[0] != "interval_targets"@[0]);
    assert("binary_operators"@.len() != "unary_operators"@.len());
    lemma_one_entry(a, "binary-operators"@, ConfigValueView::StringArray(xs));
    assert(dash_to_underscore("selection"@) =~= "selection"@);
    assert("selection"@.len() != "train"@.len());
    assert("selection"@.len() != "test"@.len());
    assert("selection"@.len() != "target"@.len());
    assert("selection"@.len() != "features"@.len());
    assert("selection"@.len() != "weight"@.len());
    assert("selection"@.len() != "target_low"@.len());
    assert("selection"@.len() != "target_high"@.len());
    assert("selection"@.len() != "sequence_id"@.len());
    assert("selection"@.len() != "niterations"@.len());
    assert("selection"@.len() != "populations"@.len());
    assert("selection"@.len() != "population_size"@.len());
    assert("selection"@.len() != "cycles"@.len());
    assert("selection"@.len() != "optimizer_iterations"@.len());
    assert("selection"@.len() != "maxsize"@.len());
    assert("selection"@.len() != "maxdepth"@.len());
    assert("selection"@[0] != "max_delay"@[0]);
    assert("selection"@.len() != "delay_probability"@.len());
    assert("selection"@[0] != "parsimony"@[0]);
    assert("selection"@.len() != "seed"@.len());
    assert("selection"@.len() != "interval_targets"@.len());
    assert("selection"@.len() != "unary_operators"@.len());
    assert("selection"@.len() != "binary_operators"@.len());
    lemma_one_entry(a, "selection"@, ConfigValueView::String(t));
}

pub fn expect_config_string(key: &str, value: &ConfigValue) -> (r: Result<String, CliError>)
    ensures
        match expect_string(key@, value@) {
            Ok(s) => r matches Ok(x) && x@ == s,
            Err(e) => r matches Err(x) && x@ == e,
        },
{
    match value {
        ConfigValue::String(s) => Ok(s.clone()),
        _ => Err(CliError::ConfigNotString(key.to_owned())),
    }
}

pub fn expect_config_string_array(key: &str, value: &ConfigValue) -> (r: Result<
    Vec<String>,
    CliError,
>)
    ensures
        match expect_string_array(key@, value@) {
            Ok(s) => r matches Ok(x) && views(x@) == s,
            Err(e) => r matches Err(x) && x@ == e,
        },
{
    match value {
        ConfigValue::StringArray(a) => Ok(clone_strings(a)),
        ConfigValue::String(s) => Ok(parse_csv_list(s.as_str())),
        _ => Err(CliError::ConfigNotStringArray(key.to_owned())),
    }
}

pub fn expect_config_operator_array(key: &str, value: &ConfigValue) -> (r: Result<
    Vec<String>,
    CliError,
>)
    ensures
        match expect_operator_array(key@, value@) {
            Ok(s) => r matches Ok(x) && views(x@) == s,
            Err(e) => r matches Err(x) && x@ == e,
        },
{
    let items = expect_config_string_array(key, value)?;
    let mut out: Vec<String> = Vec::new();
    for i in 0..items.len()
        invariant
            views(out@) == views(items@.take(i as int)).map_values(
                |p: Seq<char>| normalized_operator(p),
            ),
    {
        let ghost before = views(out@);
        out.push(normalize_operator_name(items[i].as_str()));
        assert(views(out@) =~= before.push(normalized_operator(items@[i as int]@)));
        assert(views(items@.take(i + 1)) =~= views(items@.take(i as int)).push(items@[i as int]@));
        assert(views(out@) =~= views(items@.take(i + 1)).map_values(
            |p: Seq<char>| normalized_operator(p),
        ));
    }
    assert(items@.take(items@.len() as int) =~= items@);
    Ok(out)
}

pub fn expect_config_bool(key: &str, value: &ConfigValue) -> (r: Result<bool, CliError>)
    ensures
        match expect_bool(key@, value@) {
            Ok(b) => r == Ok::<bool, CliError>(b),
            Err(e) => r matches Err(x) && x@ == e,
        },
{
    match value {
        ConfigValue::Bool(b) => Ok(*b),
        _ => Err(CliError::ConfigNotBool(key.to_owned())),
    }
}

/// A count given in a configuration.
pub fn expect_config_number(key: &str, value: &ConfigValue) -> (r: Result<usize, CliError>)
    ensures
        match expect_number(key@, value@, usize::MAX as nat) {
            Ok(n) => r == Ok::<usize, CliError>(n as usize),
            Err(e) => r matches Err(x) && x@ == e,
        },
{
    match value {
        ConfigValue::Number(t) => {
            let c = chars_of(t.as_str());
            match parse_usize(c.as_slice()) {
                Some(n) => Ok(n),
                None => Err(CliError::ConfigBadNumber(key.to_owned())),
            }
        },
        _ => Err(CliError::ConfigNotNumber(key.to_owned())),
    }
}

/// A seed given in a configuration.
pub fn expect_config_number_u64(key: &str, value: &ConfigValue) -> (r: Result<u64, CliError>)
    ensures
        match expect_number(key@, value@, u64::MAX as nat) {
            Ok(n) => r == Ok::<u64, CliError>(n as u64),
            Err(e) => r matches Err(x) && x@ == e,
        },
{
    match value {
        ConfigValue::Number(t) => {
            let c = chars_of(t.as_str());
            match parse_u64(c.as_slice()) {
                Some(n) => Ok(n),
                None => Err(CliError::ConfigBadNumber(key.to_owned())),
            }
        },
        _ => Err(CliError::ConfigNotNumber(key.to_owned())),
    }
}

/// The text of a real number given in a configuration, which must read as
/// a Rust `f64`.
pub fn expect_config_real_text(key: &str, value: &ConfigValue) -> (r: Result<String, CliError>)
    ensures
        match expect_real_text(key@, value@) {
            Ok(s) => r matches Ok(x) && x@ == s,
            Err(e) => r matches Err(x) && x@ == e,
        },
{
    match value {
        ConfigValue::Number(t) => {
            let c = chars_of(t.as_str());
            if is_float_literal(c.as_slice()) {
                Ok(t.clone())
            } else {
                Err(CliError::ConfigBadNumber(key.to_owned()))
            }
        },
        _ => Err(CliError::ConfigNotNumber(key.to_owned())),
    }
}

fn dash_to_underscore_chars(s: &[char]) -> (r: Vec<char>)
    ensures
        r@ == dash_to_underscore(s@),
{
    let mut r: Vec<char> = Vec::new();
    for i in 0..s.len()
        invariant
            r@ == dash_to_underscore(s@.take(i as int)),
    {
        r.push(
            if s[i] == '-' {
                '_'
            } else {
                s[i]
            },
        );
        assert(r@ =~= dash_to_underscore(s@.take(i + 1)));
    }
    assert(s@.take(s@.len() as int) =~= s@);
    r
}

fn apply_config_entry(args: &mut Args, key: &String, value: &ConfigValue) -> (r: Result<
    (),
    CliError,
>)
    ensures
        match config_entry(old(args)@, key@, value@) {
            Ok(a) => r is Ok && final(args)@ == a,
            Err(e) => r matches Err(x) && x@ == e,
        },
{
    let kc = chars_of(key.as_str());
    let k = dash_to_underscore_chars(kc.as_slice());
    let k = k.as_slice();
    let key = key.as_str();
    if chars_eq_str(k, "train") {
        args.train = expect_config_string(key, value)?;
    } else if chars_eq_str(k, "test") {
        args.test = Some(expect_config_string(key, value)?);
    } else if chars_eq_str(k, "target") {
        args.target = expect_config_string(key, value)?;
    } else if chars_eq_str(k, "features") {
        args.features = Some(expect_config_string_array(key, value)?);
    } else if chars_eq_str(k, "weight") {
        args.weight = Some(expect_config_string(key, value)?);
    } else if chars_eq_str(k, "target_low") {
        args.target_low = Some(expect_config_string(key, value)?);
    } else if chars_eq_str(k, "target_high") {
        args.target_high = Some(expect_config_string(key, value)?);
    } else if chars_eq_str(k, "sequence_id") {
        args.sequence_id = Some(expect_config_string(key, value)?);
    } else if chars_eq_str(k, "niterations") || chars_eq_str(k, "populations") || chars_eq_str(
        k,
        "population_size",
    ) || chars_eq_str(k, "cycles") || chars_eq_str(k, "optimizer_iterations") || chars_eq_str(
        k,
        "maxsize",
    ) || chars_eq_str(k, "maxdepth") || chars_eq_str(k, "max_delay") {
        let n = expect_config_number(key, value)?;
        if chars_eq_str(k, "niterations") {
            args.niterations = n;
        } else if chars_eq_str(k, "populations") {
            args.populations = n;
        } else if chars_eq_str(k, "population_size") {
            args.population_size = n;
        } else if chars_eq_str(k, "cycles") {
            args.cycles = n;
        } else if chars_eq_str(k, "optimizer_iterations") {
            args.optimizer_iterations = n;
        } else if chars_eq_str(k, "maxsize") {
            args.maxsize = n;
        } else if chars_eq_str(k, "maxdepth") {
            args.maxdepth = n;
        } else {
            args.max_delay = n;
        }
    } else if chars_eq_str(k, "delay_probability") {
        args.delay_probability = expect_config_real_text(key, value)?;
    } else if chars_eq_str(k, "parsimony") {
        args.parsimony = expect_config_real_text(key, value)?;
    } else if chars_eq_str(k, "seed") {
        args.seed = expect_config_number_u64(key, value)?;
    } else if chars_eq_str(k, "interval_targets") {
        args.interval_targets = expect_config_bool(key, value)?;
    } else if chars_eq_str(k, "unary_operators") {
        args.unary_operators = expect_config_operator_array(key, value)?;
    } else if chars_eq_str(k, "binary_operators") {
        args.binary_operators = expect_config_operator_array(key, value)?;
    } else if chars_eq_str(k, "selection") {
        let s = expect_config_string(key, value)?;
        match read_selection(s.as_str()) {
            Some(sel) => {
                args.selection = sel;
            },
            None => {
                return Err(CliError::BadSelection(s));
            },
        }
    } else if chars_eq_str(k, "config") {
        return Err(CliError::NestedConfig);
    } else {
        return Err(CliError::UnknownConfigKey(string_from(k)));
    }
    Ok(())
}

/// Applies the entries of a configuration object in order.
pub fn apply_config_entries(entries: &[(String, ConfigValue)], args: &mut Args) -> (r: Result<
    (),
    CliError,
>)
    ensures
        match config_from(crate::config::entries_view(entries@), 0, old(args)@) {
            Ok(a) => r is Ok && final(args)@ == a,
            Err(e) => r matches Err(x) && x@ == e,
        },
{
    let ghost all = crate::config::entries_view(entries@);
    for i in 0..entries.len()
        invariant
            all == crate::config::entries_view(entries@),
            config_from(all, 0, old(args)@) == config_from(all, i as int, args@),
    {
        let (key, value) = &entries[i];
        assert(all[i as int] == (key@, value@));
        apply_config_entry(args, key, value)?;
    }
    Ok(())
}

/// What the choice of the reported equation reads of a member of the Pareto
/// front: the binary32 bits of its cost and of its loss, and its complexity.
#[derive(Clone, Copy, Debug, PartialEq, Eq)]
pub struct FrontEntry {
    pub cost_bits: u32,
    pub loss_bits: u32,
    pub complexity: usize,
}

/// The rank of a binary32 value in the IEEE-754 total order (as Rust's
/// `f32::total_cmp` orders): non-negative encodings rank by their bits,
/// negative ones below them and in reverse.
pub open spec fn total_rank(bits: u32) -> int {
    if bits < 0x8000_0000 {
        bits as int
    } else {
        -1 - (bits - 0x8000_0000)
    }
}

fn rank(bits: u32) -> (r: i64)
    ensures
        r == total_rank(bits),
{
    if bits < 0x8000_0000 {
        bits as i64
    } else {
        -1 - ((bits - 0x8000_0000) as i64)
    }
}

/// `i` is the first position at which `ranks` is smallest.
pub open spec fn is_first_min(ranks: Seq<int>, i: int) -> bool {
    &&& 0 <= i < ranks.len()
    &&& forall|j: int| 0 <= j < ranks.len() ==> ranks[i] <= ranks[j]
    &&& forall|j: int| 0 <= j < i ==> ranks[j] > ranks[i]
}

pub open spec fn cost_ranks(front: Seq<FrontEntry>) -> Seq<int> {
    front.map_values(|e: FrontEntry| total_rank(e.cost_bits))
}

pub open spec fn loss_ranks(front: Seq<FrontEntry>) -> Seq<int> {
    front.map_values(|e: FrontEntry| total_rank(e.loss_bits))
}

fn first_min(front: &[FrontEntry], by_cost: bool) -> (r: Option<usize>)
    ensures
        ({
            let ranks = if by_cost {
                cost_ranks(front@)
            } else {
                loss_ranks(front@)
            };
            match r {
                Some(i) => is_first_min(ranks, i as int),
                None => front@.len() == 0,
            }
        }),
{
    let ghost ranks = if by_cost {
        cost_ranks(front@)
    } else {
        loss_ranks(front@)
    };
    if front.len() == 0 {
        return None;
    }
    let mut best: usize = 0;
    let mut best_rank = rank(
        if by_cost {
            front[0].cost_bits
        } else {
            front[0].loss_bits
        },
    );
    for i in 1..front.len()
        invariant
            ranks == (if by_cost {
                cost_ranks(front@)
            } else {
                loss_ranks(front@)
            }),
            best < i <= front@.len(),
            best_rank == ranks[best as int],
            forall|j: int| 0 <= j < i ==> ranks[best as int] <= ranks[j],
            forall|j: int| 0 <= j < best ==> ranks[j] > ranks[best as int],
    {
        let r = rank(
            if by_cost {
                front[i].cost_bits
            } else {
                front[i].loss_bits
            },
        );
        assert(r == ranks[i as int]);
        if r < best_rank {
            best = i;
            best_rank = r;
        }
    }
    Some(best)
}

/// The position of the first equation with complexity `c`, searching from
/// position `i`.
pub open spec fn complexity_from(front: Seq<FrontEntry>, c: usize, i: int) -> Option<int>
    decreases front.len() - i,
{
    if i < 0 || i >= front.len() {
        None
    } else if front[i].complexity == c {
        Some(i)
    } else {
        complexity_from(front, c, i + 1)
    }
}

/// The position of the first equation with the given complexity.
pub open spec fn first_with_complexity(front: Seq<FrontEntry>, c: usize) -> Option<int> {
    complexity_from(front, c, 0)
}

/// The selection can be made on this front: a Pareto position lies within
/// it, and some equation has the asked complexity.
pub open spec fn selection_fits(front: Seq<FrontEntry>, selection: Selection) -> bool {
    match selection {
        Selection::ParetoIndex(k) => 1 <= k <= front.len(),
        Selection::Complexity(c) => first_with_complexity(front, c) is Some,
        _ => true,
    }
}

/// Why a selection cannot be made on a front, if it cannot: the refusals
/// with which a run stops before choosing the reported equation.
pub fn selection_error(front: &[FrontEntry], selection: Selection) -> (r: Option<CliError>)
    ensures
        r is None <==> selection_fits(front@, selection),
        match selection {
            Selection::ParetoIndex(k) => if k == 0 {
                r matches Some(e) && e@ == CliErrorView::ParetoIndexZero
            } else if k > front@.len() {
                r matches Some(e) && e@ == CliErrorView::ParetoIndexOutside(k)
            } else {
                r is None
            },
            Selection::Complexity(c) => if first_with_complexity(front@, c) is Some {
                r is None
            } else {
                r matches Some(e) && e@ == CliErrorView::NoEquationWithComplexity(c)
            },
            _ => r is None,
        },
{
    match selection {
        Selection::ParetoIndex(k) => {
            if k == 0 {
                Some(CliError::ParetoIndexZero)
            } else if k > front.len() {
                Some(CliError::ParetoIndexOutside(k))
            } else {
                None
            }
        },
        Selection::Complexity(c) => {
            match position_of_complexity(front, c) {
                Some(_) => None,
                None => Some(CliError::NoEquationWithComplexity(c)),
            }
        },
        _ => None,
    }
}

fn position_of_complexity(front: &[FrontEntry], c: usize) -> (r: Option<usize>)
    ensures
        match first_with_complexity(front@, c) {
            Some(i) => r == Some(i as usize),
            None => r is None,
        },
{
    for i in 0..front.len()
        invariant
            first_with_complexity(front@, c) == complexity_from(front@, c, i as int),
    {
        if front[i].complexity == c {
            return Some(i);
        }
    }
    None
}

/// Which member of the Pareto front a run reports: the first one of least
/// cost or of least loss, the one at a 1-based position, or the first of a
/// complexity; none (the overall best stands in) when the front is empty
/// and cost or loss decides. The selection must fit the front
/// (`selection_error` tells).
pub fn select_member(front: &[FrontEntry], selection: Selection) -> (r: Option<usize>)
    requires
        selection_fits(front@, selection),
    ensures
        match selection {
            Selection::BestCost => match r {
                Some(i) => is_first_min(cost_ranks(front@), i as int),
                None => front@.len() == 0,
            },
            Selection::BestLoss => match r {
                Some(i) => is_first_min(loss_ranks(front@), i as int),
                None => front@.len() == 0,
            },
            Selection::ParetoIndex(k) => r == Some((k - 1) as usize),
            Selection::Complexity(c) => match first_with_complexity(front@, c) {
                Some(i) => r == Some(i as usize),
                None => false,
            },
        },
{
    match selection {
        Selection::BestCost => first_min(front, true),
        Selection::BestLoss => first_min(front, false),
        Selection::ParetoIndex(k) => Some(k - 1),
        Selection::Complexity(c) => position_of_complexity(front, c),
    }
}

/// The key by which Rust's `f32::total_cmp` orders binary32 values: the bits
/// read as an `i32`, with the lower 31 bits flipped when the sign bit is set.
pub open spec fn total_order_key(bits: u32) -> i32 {
    let x = bits as i32;
    x ^ ((((x >> 31u32) as u32) >> 1u32) as i32)
}

/// The rank of a binary32 value is the key by which `f32::total_cmp`
/// compares it, so one value ranks below another exactly when `total_cmp`
/// orders it first.
pub proof fn lemma_rank_is_total_order_key(a: u32, b: u32)
    ensures
        total_rank(a) == total_order_key(a) as int,
        total_rank(a) < total_rank(b) <==> total_order_key(a) < total_order_key(b),
{
    lemma_rank_key(a);
    lemma_rank_key(b);
}

proof fn lemma_rank_key(a: u32)
    ensures
        total_rank(a) == total_order_key(a) as int,
{
    if a < 0x8000_0000 {
        assert(total_order_key(a) as int == a as int) by (bit_vector)
            requires
                a < 0x8000_0000u32,
        ;
    } else {
        assert(total_order_key(a) as int == -1 - (a - 0x8000_0000u32)) by (bit_vector)
            requires
                a >= 0x8000_0000u32,
        ;
    }
}

/// The member that best-cost selection reports has a cost that
/// `f32::total_cmp` orders no later than that of any other member, and
/// strictly before that of every member ahead of it.
pub proof fn lemma_best_cost_is_total_order_least(front: Seq<FrontEntry>, i: int)
    requires
        is_first_min(cost_ranks(front), i),
    ensures
        forall|j: int|
            0 <= j < front.len() ==> total_order_key(front[i].cost_bits) <= total_order_key(
                #[trigger] front[j].cost_bits,
            ),
        forall|j: int|
            0 <= j < i ==> total_order_key(#[trigger] front[j].cost_bits) > total_order_key(
                front[i].cost_bits,
            ),
{
    let ranks = cost_ranks(front);
    lemma_rank_key(front[i].cost_bits);
    assert forall|j: int| 0 <= j < front.len() implies total_order_key(front[i].cost_bits)
        <= total_order_key(#[trigger] front[j].cost_bits) by {
        lemma_rank_key(front[j].cost_bits);
        assert(ranks[j] == total_rank(front[j].cost_bits));
    }
    assert forall|j: int| 0 <= j < i implies total_order_key(#[trigger] front[j].cost_bits)
        > total_order_key(front[i].cost_bits) by {
        lemma_rank_key(front[j].cost_bits);
        assert(ranks[j] == total_rank(front[j].cost_bits));
    }
}

/// The member that best-loss selection reports has a loss that
/// `f32::total_cmp` orders no later than that of any other member, and
/// strictly before that of every member ahead of it.
pub proof fn lemma_best_loss_is_total_order_least(front: Seq<FrontEntry>, i: int)
    requires
        is_first_min(loss_ranks(front), i),
    ensures
        forall|j: int|
            0 <= j < front.len() ==> total_order_key(front[i].loss_bits) <= total_order_key(
                #[trigger] front[j].loss_bits,
            ),
        forall|j: int|
            0 <= j < i ==> total_order_key(#[trigger] front[j].loss_bits) > total_order_key(
                front[i].loss_bits,
            ),
{
    let ranks = loss_ranks(front);
    lemma_rank_key(front[i].loss_bits);
    assert forall|j: int| 0 <= j < front.len() implies total_order_key(front[i].loss_bits)
        <= total_order_key(#[trigger] front[j].loss_bits) by {
        lemma_rank_key(front[j].loss_bits);
        assert(ranks[j] == total_rank(front[j].loss_bits));
    }
    assert forall|j: int| 0 <= j < i implies total_order_key(#[trigger] front[j].loss_bits)
        > total_order_key(front[i].loss_bits) by {
        lemma_rank_key(front[j].loss_bits);
        assert(ranks[j] == total_rank(front[j].loss_bits));
    }
}

/// Checks that the target bound columns read for a run come as a pair (both
/// or neither); a lone one is refused, in words that depend on whether
/// interval targets were asked for.
pub fn check_target_bounds(has_low: bool, has_high: bool, args: &Args) -> (r: Result<(), CliError>)
    ensures
        has_low == has_high ==> r is Ok,
        has_low != has_high && args.interval_targets ==> (r matches Err(e) && e@
            == CliErrorView::UnpairedTargetBounds),
        has_low != has_high && !args.interval_targets ==> (r matches Err(e) && e@
            == CliErrorView::InvalidTargetBounds),
{
    if has_low == has_high {
        Ok(())
    } else if args.interval_targets {
        Err(CliError::UnpairedTargetBounds)
    } else {
        Err(CliError::InvalidTargetBounds)
    }
}

/// Naming an operator the way it is known is stable: a known name stays as
/// it is.
pub proof fn lemma_normalized_operator_idempotent(name: Seq<char>)
    ensures
        normalized_operator(normalized_operator(name)) == normalized_operator(name),
{
    reveal_strlit("-");
    reveal_strlit("sub");
    assert("sub"@ != "-"@) by {
        assert("sub"@.len() != "-"@.len());
    }
}

/// Every item of a comma-separated list is non-empty and carries no
/// surrounding whitespace.
pub proof fn lemma_csv_items_trimmed(value: Seq<char>, i: int)
    requires
        0 <= i < csv_list(value).len(),
    ensures
        csv_list(value)[i].len() > 0,
        trim(csv_list(value)[i]) == csv_list(value)[i],
{
    let mapped = split(value, ',').map_values(|p: Seq<char>| trim(p));
    let keep = |p: Seq<char>| p.len() > 0;
    let item = csv_list(value)[i];
    mapped.lemma_filter_pred(keep, i);
    assert(mapped.filter(keep).contains(item));
    mapped.lemma_filter_contains_rev(keep, item);
    let j = choose|j: int| 0 <= j < mapped.len() && mapped[j] == item;
    crate::text::lemma_trim_idempotent(split(value, ',')[j]);
}

} // verus!
