use vstd::prelude::*;

verus! {

/// How downstream results are rendered.
#[derive(Clone, Copy, Debug, PartialEq, Eq, Structural)]
pub enum OutputFormat {
    PlainText,
    JSON,
}

/// Option that asks for the usage text.
pub const HELP_OPT: &'static str = "--help";

/// Option that selects the output format.
pub const FORMAT_OPT: &'static str = "--format";

/// Option that turns on reporting of visited paths.
pub const VERBOSE_OPT: &'static str = "--verbose";

/// Message of the error for a missing search pattern.
pub const MISSING_PATTERN: &'static str = "Missing: `pattern`. Example: `rig_grep Hello .`";

/// Message of the error for a missing search path.
pub const MISSING_PATH: &'static str = "Missing: `path`. Example: `rig_grep Hello .`";

/// `s` begins with `p`.
pub open spec fn has_prefix(s: Seq<char>, p: Seq<char>) -> bool {
    p.len() <= s.len() && s.subrange(0, p.len() as int) == p
}

/// Tests whether `s` begins with `prefix`, character by character.
pub fn starts_with(s: &str, prefix: &str) -> (r: bool)
    ensures
        r == has_prefix(s@, prefix@),
{
    let n: usize = s.unicode_len();
    let m: usize = prefix.unicode_len();
    if m > n {
        return false;
    }
    let mut i: usize = 0;
    while i < m
        invariant
            m <= n,
            n == s@.len(),
            m == prefix@.len(),
            i <= m,
            forall|j: int| 0 <= j < i ==> s@[j] == prefix@[j],
        decreases m - i,
    {
        if s.get_char(i) != prefix.get_char(i) {
            assert(s@.subrange(0, m as int)[i as int] != prefix@[i as int]);
            return false;
        }
        i = i + 1;
    }
    assert(s@.subrange(0, m as int) =~= prefix@);
    true
}

/// Tests whether `a` and `b` hold the same characters.
pub fn same_text(a: &str, b: &str) -> (r: bool)
    ensures
        r == (a@ == b@),
{
    let same_len = a.unicode_len() == b.unicode_len();
    if !same_len {
        return false;
    }
    let r = starts_with(a, b);
    assert(a@ =~= a@.subrange(0, b@.len() as int));
    r
}

/// Index of the first `=` in `s` at or after `i`, or `s.len()` when there is none.
pub open spec fn first_eq_from(s: Seq<char>, i: int) -> int
    decreases s.len() - i,
{
    if i < 0 || i >= s.len() {
        s.len() as int
    } else if s[i] == '=' {
        i
    } else {
        first_eq_from(s, i + 1)
    }
}

/// The value of an option token: what follows its first `=`, if it has one.
pub open spec fn option_value(s: Seq<char>) -> Option<Seq<char>> {
    let k = first_eq_from(s, 0);
    if k < s.len() {
        Some(s.subrange(k + 1, s.len() as int))
    } else {
        None
    }
}

proof fn lemma_first_eq_bounds(s: Seq<char>, i: int)
    requires
        0 <= i <= s.len(),
    ensures
        i <= first_eq_from(s, i) <= s.len(),
        first_eq_from(s, i) < s.len() ==> s[first_eq_from(s, i)] == '=',
    decreases s.len() - i,
{
    if i < s.len() && s[i] != '=' {
        lemma_first_eq_bounds(s, i + 1);
    }
}

/// The text after the first `=` of an option token; `None` when the token has no `=`.
pub fn get_option_value(opt: &str) -> (r: Option<&str>)
    ensures
        r matches Some(v) ==> option_value(opt@) == Some(v@),
        r is None ==> option_value(opt@) is None,
{
    let n: usize = opt.unicode_len();
    let mut i: usize = 0;
    while i < n
        invariant
            n == opt@.len(),
            i <= n,
            first_eq_from(opt@, 0) == first_eq_from(opt@, i as int),
        decreases n - i,
    {
        if opt.get_char(i) == '=' {
            return Some(opt.substring_char(i + 1, n));
        }
        i = i + 1;
    }
    None
}

/// The flags that the option tokens set.
pub struct Flags {
    pub is_help: bool,
    pub verbose: bool,
    pub format: OutputFormat,
}

/// Flags before any option is read.
pub open spec fn default_flags() -> Flags {
    Flags { is_help: false, verbose: false, format: OutputFormat::PlainText }
}

/// The format that a `--format` value selects.
pub open spec fn format_of(v: Seq<char>) -> OutputFormat {
    if v == "JSON"@ || v == "json"@ {
        OutputFormat::JSON
    } else {
        OutputFormat::PlainText
    }
}

/// Applies one token to the flags. A token that matches no option prefix leaves them
/// as they are; a value-bearing option without `=` is an error carrying the token.
pub open spec fn apply_option(f: Flags, tok: Seq<char>) -> Result<Flags, Seq<char>> {
    if has_prefix(tok, HELP_OPT@) {
        Ok(Flags { is_help: true, verbose: f.verbose, format: f.format })
    } else if has_prefix(tok, VERBOSE_OPT@) {
        match option_value(tok) {
            Some(v) => Ok(Flags { is_help: f.is_help, verbose: v != "false"@, format: f.format }),
            None => Err(tok),
        }
    } else if has_prefix(tok, FORMAT_OPT@) {
        match option_value(tok) {
            Some(v) => Ok(Flags { is_help: f.is_help, verbose: f.verbose, format: format_of(v) }),
            None => Err(tok),
        }
    } else {
        Ok(f)
    }
}

/// Folds the tokens into flags from left to right; the first faulty token stops the fold.
pub open spec fn scan_options(toks: Seq<Seq<char>>) -> Result<Flags, Seq<char>>
    decreases toks.len(),
{
    if toks.len() == 0 {
        Ok(default_flags())
    } else {
        match scan_options(toks.drop_last()) {
            Ok(f) => apply_option(f, toks.last()),
            Err(t) => Err(t),
        }
    }
}

/// The text of each argument.
pub open spec fn texts(args: Seq<String>) -> Seq<Seq<char>> {
    args.map_values(|a: String| a@)
}

/// Every argument after the program name.
pub open spec fn option_tokens(args: Seq<Seq<char>>) -> Seq<Seq<char>> {
    if args.len() == 0 {
        args
    } else {
        args.subrange(1, args.len() as int)
    }
}

/// The message for too few arguments: the pattern is missing when nothing follows
/// the program name, the path when one token does.
pub open spec fn missing_message(n: nat) -> Seq<char> {
    if n <= 1 {
        MISSING_PATTERN@
    } else {
        MISSING_PATH@
    }
}

/// A resolved configuration, as text and values.
pub struct CliModel {
    pub pattern: Seq<char>,
    pub path: Seq<char>,
    pub verbose: bool,
    pub format: OutputFormat,
    pub is_help: bool,
    pub options: Seq<Seq<char>>,
}

/// Why resolution failed, as text.
pub enum CliErrorModel {
    MissingArgument(Seq<char>),
    InvalidOptionValue(Seq<char>),
}

/// The outcome of resolving a full argument sequence, program name first.
pub open spec fn resolve(args: Seq<Seq<char>>) -> Result<CliModel, CliErrorModel> {
    let opts = option_tokens(args);
    match scan_options(opts) {
        Err(t) => Err(CliErrorModel::InvalidOptionValue(t)),
        Ok(f) => if args.len() < 3 {
            Err(CliErrorModel::MissingArgument(missing_message(args.len())))
        } else {
            Ok(
                CliModel {
                    pattern: args[args.len() - 2],
                    path: args[args.len() - 1],
                    verbose: f.verbose,
                    format: f.format,
                    is_help: f.is_help,
                    options: opts,
                },
            )
        },
    }
}

/// `std::path::PathBuf`, carried through as an opaque value.
#[verifier::external_type_specification]
#[verifier::external_body]
pub struct ExPathBuf(std::path::PathBuf);

/// The path that `PathBuf::from` builds from a text; it depends on the text alone.
pub uninterp spec fn path_from(s: Seq<char>) -> std::path::PathBuf;

/// Relies on `PathBuf::from` for `&String`: the path is built from the text alone,
/// with no access to the filesystem.
#[verifier::external_body]
pub fn parse_path(path: &String) -> (r: std::path::PathBuf)
    ensures
        r == path_from(path@),
{
    std::path::PathBuf::from(path)
}

/// Copies every argument after the program name, in order.
pub fn read_options(args: &Vec<String>) -> (r: Vec<String>)
    ensures
        texts(r@) == option_tokens(texts(args@)),
{
    let mut options: Vec<String> = Vec::new();
    let mut i: usize = 1;
    while i < args.len()
        invariant
            1 <= i,
            i <= args.len() || i == 1,
            options@.len() == i - 1,
            forall|j: int| 0 <= j < options@.len() ==> options@[j]@ == args@[j + 1]@,
        decreases args.len() - i,
    {
        options.push(args[i].clone());
        i = i + 1;
    }
    assert(texts(options@) =~= option_tokens(texts(args@))) by {
        if args.len() > 0 {
            assert(options@.len() == args@.len() - 1);
            assert forall|j: int| 0 <= j < options@.len() implies texts(options@)[j] == option_tokens(
                texts(args@),
            )[j] by {
                assert(texts(options@)[j] == options@[j]@);
                assert(texts(args@)[j + 1] == args@[j + 1]@);
            }
        }
    }
    options
}

/// Why an argument sequence was refused.
#[derive(Debug)]
pub enum CliError {
    /// Too few arguments; the message names the missing one and shows an invocation.
    MissingArgument(String),
    /// A value-bearing option without `=`; holds the token as given.
    InvalidOptionValue(String),
}

impl View for CliError {
    type V = CliErrorModel;

    open spec fn view(&self) -> CliErrorModel {
        match self {
            CliError::MissingArgument(m) => CliErrorModel::MissingArgument(m@),
            CliError::InvalidOptionValue(t) => CliErrorModel::InvalidOptionValue(t@),
        }
    }
}

/// A resolved configuration: `<program> [options...] <pattern> <path>`.
#[derive(Debug)]
pub struct Cli {
    pub pattern: String,
    pub path: std::path::PathBuf,
    pub path_str: String,
    pub verbose: bool,
    pub format: OutputFormat,
    pub is_help: bool,
    pub options: Vec<String>,
}

impl View for Cli {
    type V = CliModel;

    open spec fn view(&self) -> CliModel {
        CliModel {
            pattern: self.pattern@,
            path: self.path_str@,
            verbose: self.verbose,
            format: self.format,
            is_help: self.is_help,
            options: texts(self.options@),
        }
    }
}

impl Cli {
    /// Resolves the full argument sequence, program name first. Options are read left
    /// to right, the last of a kind winning; pattern and path are the last two arguments.
    pub fn parse(args: &Vec<String>) -> (r: Result<Cli, CliError>)
        ensures
            r matches Ok(c) ==> resolve(texts(args@)) == Ok::<CliModel, CliErrorModel>(c@)
                && c.path == path_from(c.path_str@),
            r matches Err(e) ==> resolve(texts(args@)) == Err::<CliModel, CliErrorModel>(e@),
    {
        let options = read_options(args);
        let ghost opts = option_tokens(texts(args@));
        let mut is_help = false;
        let mut verbose = false;
        let mut format = OutputFormat::PlainText;
        let mut i: usize = 0;
        while i < options.len()
            invariant
                opts == option_tokens(texts(args@)),
                texts(options@) == opts,
                i <= options@.len(),
                scan_options(opts.take(i as int)) == Ok::<Flags, Seq<char>>(
                    (Flags { is_help, verbose, format }),
                ),
            decreases options@.len() - i,
        {
            let opt: &str = options[i].as_str();
            assert(opts.take(i + 1).drop_last() =~= opts.take(i as int));
            assert(texts(options@)[i as int] == options@[i as int]@);
            assert(opts.take(i + 1).last() == opt@);
            if starts_with(opt, HELP_OPT) {
                is_help = true;
            } else if starts_with(opt, VERBOSE_OPT) {
                match get_option_value(opt) {
                    Some(v) => {
                        verbose = !same_text(v, "false");
                    },
                    None => {
                        proof {
                            lemma_scan_stops(opts, i as int);
                        }
                        return Err(CliError::InvalidOptionValue(options[i].clone()));
                    },
                }
            } else if starts_with(opt, FORMAT_OPT) {
                match get_option_value(opt) {
                    Some(v) => {
                        format = if same_text(v, "JSON") || same_text(v, "json") {
                            OutputFormat::JSON
                        } else {
                            OutputFormat::PlainText
                        };
                    },
                    None => {
                        proof {
                            lemma_scan_stops(opts, i as int);
                        }
                        return Err(CliError::InvalidOptionValue(options[i].clone()));
                    },
                }
            }
            i = i + 1;
        }
        assert(opts.take(i as int) =~= opts);
        let n: usize = args.len();
        if n < 3 {
            let msg = if n <= 1 {
                String::from_str(MISSING_PATTERN)
            } else {
                String::from_str(MISSING_PATH)
            };
            return Err(CliError::MissingArgument(msg));
        }
        let pattern = args[n - 2].clone();
        let path_str = args[n - 1].clone();
        let path = parse_path(&path_str);
        Ok(Cli { pattern, path, path_str, verbose, format, is_help, options })
    }
}

/// Once the fold fails on a prefix of the tokens, it fails on all of them with the same token.
proof fn lemma_scan_stops(toks: Seq<Seq<char>>, i: int)
    requires
        0 <= i < toks.len(),
        scan_options(toks.take(i)) matches Ok(f) && apply_option(f, toks[i]) is Err,
    ensures
        scan_options(toks) == Err::<Flags, Seq<char>>(toks[i]),
    decreases toks.len() - i,
{
    if toks.len() == i + 1 {
        assert(toks.drop_last() =~= toks.take(i));
        let f = scan_options(toks.take(i))->Ok_0;
        assert(apply_option(f, toks[i]) == Err::<Flags, Seq<char>>(toks[i]));
    } else {
        let d = toks.drop_last();
        assert(d.take(i) =~= toks.take(i));
        lemma_scan_stops(d, i);
    }
}

/// Whenever at least three arguments are given and every value-bearing option has its `=`,
/// resolution succeeds, and the pattern and the path are the last two arguments.
pub proof fn lemma_trailing_positionals(args: Seq<Seq<char>>)
    requires
        args.len() >= 3,
        scan_options(option_tokens(args)) is Ok,
    ensures
        resolve(args) is Ok,
        resolve(args)->Ok_0.pattern == args[args.len() - 2],
        resolve(args)->Ok_0.path == args[args.len() - 1],
{
}

/// Resolution depends on the text of the arguments alone: two argument sequences with the
/// same texts resolve to the same outcome, and paths built from the same text are equal.
pub proof fn lemma_resolve_deterministic(a: Seq<String>, b: Seq<String>)
    requires
        texts(a) == texts(b),
    ensures
        resolve(texts(a)) == resolve(texts(b)),
        resolve(texts(a)) matches Ok(c) ==> path_from(c.path) == path_from(
            resolve(texts(b))->Ok_0.path,
        ),
{
}

/// A `--help` token anywhere after the program name sets the help flag of a successful
/// resolution, whatever follows it.
pub proof fn lemma_help_anywhere(args: Seq<Seq<char>>, i: int)
    requires
        1 <= i < args.len(),
        has_prefix(args[i], HELP_OPT@),
        resolve(args) is Ok,
    ensures
        resolve(args)->Ok_0.is_help,
{
    lemma_scan_keeps_help(option_tokens(args), i - 1);
}

proof fn lemma_scan_keeps_help(toks: Seq<Seq<char>>, k: int)
    requires
        0 <= k < toks.len(),
        has_prefix(toks[k], HELP_OPT@),
    ensures
        scan_options(toks) matches Ok(f) ==> f.is_help,
    decreases toks.len(),
{
    if k < toks.len() - 1 {
        lemma_scan_keeps_help(toks.drop_last(), k);
    }
}

} // verus!
