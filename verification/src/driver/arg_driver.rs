//! Command-line arguments: classifying each argument, then folding them
//! into the options of a compilation.

use vstd::prelude::*;
use crate::text::{has_prefix, has_suffix, str_equal};

verus! {

/// The stage after which the compiler stops.
#[derive(Debug, PartialEq, Eq, Clone, Copy, Structural)]
pub enum CompilerStage {
    Preprocess,
    Lex,
    Parse,
    Compile,
    Assemble,
    Link,
}

/// The requested optimization level.
#[derive(Debug, PartialEq, Eq, Clone, Copy, Structural)]
pub enum OptimizationLevel {
    Zero,
    O1,
    O2,
    O3,
}

/// The options of a compilation.
#[derive(Debug)]
pub struct CompilerOptions {
    pub input_files: Vec<String>,
    pub output_file: Option<String>,
    pub stop_stage: CompilerStage,
    pub optimization: OptimizationLevel,
}

/// The options of a compilation as values.
pub struct OptionsModel {
    pub input_files: Seq<Seq<char>>,
    pub output_file: Option<Seq<char>>,
    pub stop_stage: CompilerStage,
    pub optimization: OptimizationLevel,
}

impl View for CompilerOptions {
    type V = OptionsModel;

    open spec fn view(&self) -> OptionsModel {
        OptionsModel {
            input_files: self.input_files@.map_values(|s: String| s@),
            output_file: match self.output_file {
                Some(s) => Some(s@),
                None => None,
            },
            stop_stage: self.stop_stage,
            optimization: self.optimization,
        }
    }
}

/// The options before any argument is applied: no input, an empty output
/// name, stop after linking, no optimization.
pub open spec fn default_options() -> OptionsModel {
    OptionsModel {
        input_files: Seq::empty(),
        output_file: Some(Seq::empty()),
        stop_stage: CompilerStage::Link,
        optimization: OptimizationLevel::Zero,
    }
}

impl CompilerOptions {
    /// The default options.
    pub fn new() -> (res: Self)
        ensures
            res@ == default_options(),
    {
        let input_file_vec: Vec<String> = Vec::new();
        let res = CompilerOptions {
            input_files: input_file_vec,
            output_file: Some(String::new()),
            stop_stage: CompilerStage::Link,
            optimization: OptimizationLevel::Zero,
        };
        assert(res@.input_files =~= Seq::<Seq<char>>::empty());
        res
    }
}

/// One classified command-line argument.
enum Argument {
    InputFile(String),
    OutputFile(String),
    StopAt(CompilerStage),
    OptLevel(OptimizationLevel),
    Unknown(String),
}

/// A classified command-line argument as a value.
pub enum ArgModel {
    InputFile(Seq<char>),
    OutputFile(Seq<char>),
    StopAt(CompilerStage),
    OptLevel(OptimizationLevel),
    Unknown(Seq<char>),
}

impl View for Argument {
    type V = ArgModel;

    closed spec fn view(&self) -> ArgModel {
        match self {
            Argument::InputFile(s) => ArgModel::InputFile(s@),
            Argument::OutputFile(s) => ArgModel::OutputFile(s@),
            Argument::StopAt(st) => ArgModel::StopAt(*st),
            Argument::OptLevel(l) => ArgModel::OptLevel(*l),
            Argument::Unknown(s) => ArgModel::Unknown(s@),
        }
    }
}

/// Why the arguments were refused.
#[derive(Debug)]
pub enum ArgError {
    /// An argument that names no option; it is held here.
    UnknownArgument(String),
    /// `-o` was the last argument.
    MissingOutputFileName,
}

/// Why the arguments were refused, as a value.
pub enum ArgErrorModel {
    UnknownArgument(Seq<char>),
    MissingOutputFileName,
}

impl View for ArgError {
    type V = ArgErrorModel;

    open spec fn view(&self) -> ArgErrorModel {
        match self {
            ArgError::UnknownArgument(s) => ArgErrorModel::UnknownArgument(s@),
            ArgError::MissingOutputFileName => ArgErrorModel::MissingOutputFileName,
        }
    }
}

/// The message an error is reported with.
pub open spec fn error_message(e: ArgErrorModel) -> Seq<char> {
    match e {
        ArgErrorModel::UnknownArgument(a) => "Unknown argument: "@ + a,
        ArgErrorModel::MissingOutputFileName => "'-o' flag requires an output filename"@,
    }
}

impl ArgError {
    /// The message this error is reported with.
    pub fn to_string(&self) -> (res: String)
        ensures
            res@ == error_message(self@),
    {
        match self {
            ArgError::UnknownArgument(a) => {
                let mut s = "Unknown argument: ".to_owned();
                s.append(a.as_str());
                s
            },
            ArgError::MissingOutputFileName => "'-o' flag requires an output filename".to_owned(),
        }
    }
}

/// An argument naming a C source file ends in `.c`.
pub open spec fn is_source_file(a: Seq<char>) -> bool {
    ".c"@.is_suffix_of(a)
}

/// The meaning of an argument that starts with `--`.
pub open spec fn classify_long_option(a: Seq<char>) -> ArgModel {
    if a == "--lex"@ {
        ArgModel::StopAt(CompilerStage::Lex)
    } else if a == "--parse"@ {
        ArgModel::StopAt(CompilerStage::Parse)
    } else if a == "--codegen"@ {
        ArgModel::StopAt(CompilerStage::Assemble)
    } else {
        ArgModel::Unknown(a)
    }
}

/// The meaning of an argument that starts with `-O`.
pub open spec fn classify_optimization(a: Seq<char>) -> ArgModel {
    if a == "-O1"@ {
        ArgModel::OptLevel(OptimizationLevel::O1)
    } else if a == "-O2"@ {
        ArgModel::OptLevel(OptimizationLevel::O2)
    } else if a == "-O3"@ {
        ArgModel::OptLevel(OptimizationLevel::O3)
    } else {
        ArgModel::Unknown(a)
    }
}

/// Puts `x` in front of the classified arguments of a scan.
pub open spec fn prepend(x: ArgModel, r: (Seq<ArgModel>, bool)) -> (Seq<ArgModel>, bool) {
    (seq![x] + r.0, r.1)
}

/// Classifies the arguments left to right. The result holds the classified
/// arguments, and whether the scan stopped at an `-o` with no name after it
/// (the arguments classified before it are kept). Arguments that are not
/// source files and do not start with `-` are ignored; the argument after
/// `-o` is taken as the output name whatever it is.
pub open spec fn scan_arguments(args: Seq<Seq<char>>) -> (Seq<ArgModel>, bool)
    decreases args.len(),
{
    if args.len() == 0 {
        (Seq::empty(), false)
    } else {
        let a = args[0];
        if is_source_file(a) {
            prepend(ArgModel::InputFile(a), scan_arguments(args.drop_first()))
        } else if "--"@.is_prefix_of(a) {
            prepend(classify_long_option(a), scan_arguments(args.drop_first()))
        } else if "-"@.is_prefix_of(a) {
            if "-O"@.is_prefix_of(a) {
                prepend(classify_optimization(a), scan_arguments(args.drop_first()))
            } else if a == "-o"@ {
                if args.len() >= 2 {
                    prepend(ArgModel::OutputFile(args[1]), scan_arguments(args.skip(2)))
                } else {
                    (Seq::empty(), true)
                }
            } else {
                prepend(ArgModel::Unknown(a), scan_arguments(args.drop_first()))
            }
        } else {
            scan_arguments(args.drop_first())
        }
    }
}

/// The options after one more classified argument; an unknown argument
/// is refused.
pub open spec fn apply_argument(o: OptionsModel, a: ArgModel) -> Result<OptionsModel, Seq<char>> {
    match a {
        ArgModel::InputFile(f) => Ok(
            OptionsModel {
                input_files: o.input_files.push(f),
                output_file: o.output_file,
                stop_stage: o.stop_stage,
                optimization: o.optimization,
            },
        ),
        ArgModel::OutputFile(f) => Ok(
            OptionsModel {
                input_files: o.input_files,
                output_file: Some(f),
                stop_stage: o.stop_stage,
                optimization: o.optimization,
            },
        ),
        ArgModel::StopAt(s) => Ok(
            OptionsModel {
                input_files: o.input_files,
                output_file: o.output_file,
                stop_stage: s,
                optimization: o.optimization,
            },
        ),
        ArgModel::OptLevel(l) => Ok(
            OptionsModel {
                input_files: o.input_files,
                output_file: o.output_file,
                stop_stage: o.stop_stage,
                optimization: l,
            },
        ),
        ArgModel::Unknown(x) => Err(x),
    }
}

/// The options from the default ones and the classified arguments, applied
/// in order; the first unknown argument is the error.
pub open spec fn fold_arguments(ps: Seq<ArgModel>) -> Result<OptionsModel, Seq<char>>
    decreases ps.len(),
{
    if ps.len() == 0 {
        Ok(default_options())
    } else {
        match fold_arguments(ps.drop_last()) {
            Ok(o) => apply_argument(o, ps.last()),
            Err(x) => Err(x),
        }
    }
}

/// What `ArgDriver::parse` answers, given the arguments it classified on
/// earlier calls and its arguments.
pub open spec fn parse_outcome(earlier: Seq<ArgModel>, args: Seq<Seq<char>>) -> Result<
    OptionsModel,
    ArgErrorModel,
> {
    let (scanned, missing) = scan_arguments(args);
    if missing {
        Err(ArgErrorModel::MissingOutputFileName)
    } else {
        match fold_arguments(earlier + scanned) {
            Ok(o) => Ok(o),
            Err(x) => Err(ArgErrorModel::UnknownArgument(x)),
        }
    }
}

/// The value of a parse result.
pub open spec fn outcome_view(r: Result<CompilerOptions, ArgError>) -> Result<OptionsModel, ArgErrorModel> {
    match r {
        Ok(o) => Ok(o@),
        Err(e) => Err(e@),
    }
}

/// Turns command-line arguments into compiler options.
pub struct ArgDriver {
    arg_vec: Vec<String>,
    processed_arg_vec: Vec<Argument>,
}

impl ArgDriver {
    /// The arguments.
    pub closed spec fn arguments(&self) -> Seq<Seq<char>> {
        self.arg_vec@.map_values(|s: String| s@)
    }

    /// The arguments classified so far, by all calls of `parse`.
    pub closed spec fn processed(&self) -> Seq<ArgModel> {
        self.processed_arg_vec@.map_values(|a: Argument| a@)
    }

    /// A driver for `args`, with nothing classified yet.
    pub fn new(args: Vec<String>) -> (res: Self)
        ensures
            res.arguments() == args@.map_values(|s: String| s@),
            res.processed() == Seq::<ArgModel>::empty(),
    {
        let proc_arg_vec: Vec<Argument> = Vec::new();
        let res = ArgDriver { arg_vec: args, processed_arg_vec: proc_arg_vec };
        assert(res.processed() =~= Seq::<ArgModel>::empty());
        res
    }

    /// Classifies the arguments, appending them to those classified by
    /// earlier calls, then folds everything classified into options.
    pub fn parse(&mut self) -> (res: Result<CompilerOptions, ArgError>)
        ensures
            final(self).arguments() == old(self).arguments(),
            final(self).processed() == old(self).processed() + scan_arguments(old(self).arguments()).0,
            outcome_view(res) == parse_outcome(old(self).processed(), old(self).arguments()),
    {
        let ghost earlier = self.processed();
        let (mut scanned, missing) = self.scan();
        let ghost scanned_view = scanned@.map_values(|a: Argument| a@);
        self.append_processed(&mut scanned);
        if missing {
            return Err(ArgError::MissingOutputFileName);
        }
        self.build_options(Ghost(earlier), Ghost(scanned_view))
    }

    fn append_processed(&mut self, v: &mut Vec<Argument>)
        ensures
            final(self).arguments() == old(self).arguments(),
            final(self).processed() == old(self).processed() + old(v)@.map_values(|a: Argument| a@),
    {
        let ghost added = v@.map_values(|a: Argument| a@);
        self.processed_arg_vec.append(v);
        assert(self.processed() =~= old(self).processed() + added);
    }

    /// Classifies the arguments; the flag says whether the scan stopped at
    /// an `-o` with no name after it.
    fn scan(&self) -> (res: (Vec<Argument>, bool))
        ensures
            res.0@.map_values(|a: Argument| a@) == scan_arguments(self.arguments()).0,
            res.1 == scan_arguments(self.arguments()).1,
    {
        let ghost args = self.arguments();
        let n = self.arg_vec.len();
        let mut out: Vec<Argument> = Vec::new();
        let mut i: usize = 0;
        assert(args.skip(0) =~= args);
        assert(out@.map_values(|a: Argument| a@) =~= Seq::<ArgModel>::empty());
        while i < n
            invariant
                n == self.arg_vec@.len(),
                args == self.arguments(),
                i <= n,
                scan_arguments(args) == prepend_all(
                    out@.map_values(|a: Argument| a@),
                    scan_arguments(args.skip(i as int)),
                ),
            decreases n - i,
        {
            let ghost pre = out@.map_values(|a: Argument| a@);
            let ghost rest = args.skip(i as int);
            assert(rest[0] == args[i as int]);
            assert(rest.drop_first() =~= args.skip(i + 1));
            let arg = &self.arg_vec[i];
            assert(arg@ == args[i as int]);
            if has_suffix(arg.as_str(), ".c") {
                let a = Argument::InputFile(arg.clone());
                proof {
                    lemma_prepend_all_step(pre, a@, scan_arguments(args.skip(i + 1)));
                }
                out.push(a);
                assert(out@.map_values(|a: Argument| a@) =~= pre.push(a@));
                i = i + 1;
                continue;
            }
            if has_prefix(arg.as_str(), "--") {
                let a = if str_equal(arg.as_str(), "--lex") {
                    Argument::StopAt(CompilerStage::Lex)
                } else if str_equal(arg.as_str(), "--parse") {
                    Argument::StopAt(CompilerStage::Parse)
                } else if str_equal(arg.as_str(), "--codegen") {
                    Argument::StopAt(CompilerStage::Assemble)
                } else {
                    Argument::Unknown(arg.clone())
                };
                proof {
                    lemma_prepend_all_step(pre, a@, scan_arguments(args.skip(i + 1)));
                }
                out.push(a);
                assert(out@.map_values(|a: Argument| a@) =~= pre.push(a@));
                i = i + 1;
                continue;
            }
            if has_prefix(arg.as_str(), "-") {
                if has_prefix(arg.as_str(), "-O") {
                    let a = if str_equal(arg.as_str(), "-O1") {
                        Argument::OptLevel(OptimizationLevel::O1)
                    } else if str_equal(arg.as_str(), "-O2") {
                        Argument::OptLevel(OptimizationLevel::O2)
                    } else if str_equal(arg.as_str(), "-O3") {
                        Argument::OptLevel(OptimizationLevel::O3)
                    } else {
                        Argument::Unknown(arg.clone())
                    };
                    proof {
                        lemma_prepend_all_step(pre, a@, scan_arguments(args.skip(i + 1)));
                    }
                    out.push(a);
                    assert(out@.map_values(|a: Argument| a@) =~= pre.push(a@));
                    i = i + 1;
                    continue;
                }
                if str_equal(arg.as_str(), "-o") {
                    if i + 1 < n {
                        let a = Argument::OutputFile(self.arg_vec[i + 1].clone());
                        assert(rest[1] == args[i + 1]);
                        assert(rest.skip(2) =~= args.skip(i + 2));
                        proof {
                            lemma_prepend_all_step(pre, a@, scan_arguments(args.skip(i + 2)));
                        }
                        out.push(a);
                        assert(out@.map_values(|a: Argument| a@) =~= pre.push(a@));
                        i = i + 2;
                        continue;
                    } else {
                        assert(rest.len() == 1);
                        assert(scan_arguments(rest) == (Seq::<ArgModel>::empty(), true));
                        assert(scan_arguments(args).0 =~= pre);
                        return (out, true);
                    }
                } else {
                    let a = Argument::Unknown(arg.clone());
                    proof {
                        lemma_prepend_all_step(pre, a@, scan_arguments(args.skip(i + 1)));
                    }
                    out.push(a);
                    assert(out@.map_values(|a: Argument| a@) =~= pre.push(a@));
                    i = i + 1;
                    continue;
                }
            }
            i = i + 1;
        }
        assert(args.skip(n as int) =~= Seq::<Seq<char>>::empty());
        assert(scan_arguments(args).0 =~= out@.map_values(|a: Argument| a@));
        (out, false)
    }

    /// Folds everything classified into options.
    fn build_options(&self, Ghost(earlier): Ghost<Seq<ArgModel>>, Ghost(scanned): Ghost<Seq<ArgModel>>) -> (res: Result<CompilerOptions, ArgError>)
        requires
            self.processed() == earlier + scanned,
        ensures
            outcome_view(res) == match fold_arguments(earlier + scanned) {
                Ok(o) => Ok(o),
                Err(x) => Err(ArgErrorModel::UnknownArgument(x)),
            },
    {
        let ghost all = self.processed();
        let mut compiler_options = CompilerOptions::new();
        let n = self.processed_arg_vec.len();
        let mut i: usize = 0;
        assert(all.take(0) =~= Seq::<ArgModel>::empty());
        while i < n
            invariant
                n == self.processed_arg_vec@.len(),
                all == self.processed(),
                all == earlier + scanned,
                i <= n,
                fold_arguments(all.take(i as int)) == Ok::<OptionsModel, Seq<char>>(compiler_options@),
            decreases n - i,
        {
            assert(all.take(i + 1).drop_last() =~= all.take(i as int));
            assert(all[i as int] == self.processed_arg_vec@[i as int]@);
            let ghost before = compiler_options@;
            match &self.processed_arg_vec[i] {
                Argument::InputFile(filename) => {
                    compiler_options.input_files.push(filename.clone());
                    assert(compiler_options@.input_files =~= before.input_files.push(filename@));
                },
                Argument::OutputFile(filename) => {
                    compiler_options.output_file = Some(filename.clone());
                },
                Argument::StopAt(stage) => {
                    compiler_options.stop_stage = *stage;
                },
                Argument::OptLevel(level) => {
                    compiler_options.optimization = *level;
                },
                Argument::Unknown(arg) => {
                    assert(all.take(i + 1).last() == all[i as int]);
                    assert(fold_arguments(all.take(i + 1)) == Err::<OptionsModel, Seq<char>>(arg@));
                    proof {
                        lemma_fold_error_persists(all, i as int + 1);
                    }
                    assert(fold_arguments(all) == Err::<OptionsModel, Seq<char>>(arg@));
                    let e = ArgError::UnknownArgument(arg.clone());
                    assert(e@ == ArgErrorModel::UnknownArgument(arg@));
                    return Err(e);
                },
            }
            i = i + 1;
        }
        assert(all.take(n as int) =~= all);
        Ok(compiler_options)
    }
}

/// Puts the classified arguments `pre` in front of a scan's result.
pub open spec fn prepend_all(pre: Seq<ArgModel>, r: (Seq<ArgModel>, bool)) -> (Seq<ArgModel>, bool) {
    (pre + r.0, r.1)
}

proof fn lemma_prepend_all_step(pre: Seq<ArgModel>, x: ArgModel, r: (Seq<ArgModel>, bool))
    ensures
        prepend_all(pre, prepend(x, r)) == prepend_all(pre.push(x), r),
{
    assert(pre + (seq![x] + r.0) =~= pre.push(x) + r.0);
}

/// The last optimization flag decides: when the classified arguments fold
/// into options and `ps[i]` is the last optimization level among them,
/// the options carry that level, whatever came before it.
pub proof fn lemma_last_opt_level_wins(ps: Seq<ArgModel>, i: int, l: OptimizationLevel)
    requires
        0 <= i < ps.len(),
        ps[i] == ArgModel::OptLevel(l),
        forall|j: int| i < j < ps.len() ==> !(#[trigger] ps[j] is OptLevel),
        fold_arguments(ps) is Ok,
    ensures
        fold_arguments(ps)->Ok_0.optimization == l,
    decreases ps.len(),
{
    let init = ps.drop_last();
    if i < ps.len() - 1 {
        assert(!(ps[ps.len() - 1] is OptLevel));
        assert forall|j: int| i < j < init.len() implies !(#[trigger] init[j] is OptLevel) by {
            assert(init[j] == ps[j]);
        }
        lemma_last_opt_level_wins(init, i, l);
    }
}

/// Without any optimization flag the level stays the default, `Zero`.
pub proof fn lemma_no_opt_level_default(ps: Seq<ArgModel>)
    requires
        forall|j: int| 0 <= j < ps.len() ==> !(#[trigger] ps[j] is OptLevel),
        fold_arguments(ps) is Ok,
    ensures
        fold_arguments(ps)->Ok_0.optimization == OptimizationLevel::Zero,
    decreases ps.len(),
{
    if ps.len() > 0 {
        let init = ps.drop_last();
        assert(!(ps[ps.len() - 1] is OptLevel));
        assert forall|j: int| 0 <= j < init.len() implies !(#[trigger] init[j] is OptLevel) by {
            assert(init[j] == ps[j]);
        }
        lemma_no_opt_level_default(init);
    }
}

/// The last stop-stage flag decides: when the classified arguments fold
/// into options and `ps[i]` is the last stop stage among them, the
/// options carry that stage, whatever came before it.
pub proof fn lemma_last_stop_stage_wins(ps: Seq<ArgModel>, i: int, st: CompilerStage)
    requires
        0 <= i < ps.len(),
        ps[i] == ArgModel::StopAt(st),
        forall|j: int| i < j < ps.len() ==> !(#[trigger] ps[j] is StopAt),
        fold_arguments(ps) is Ok,
    ensures
        fold_arguments(ps)->Ok_0.stop_stage == st,
    decreases ps.len(),
{
    let init = ps.drop_last();
    if i < ps.len() - 1 {
        assert(!(ps[ps.len() - 1] is StopAt));
        assert forall|j: int| i < j < init.len() implies !(#[trigger] init[j] is StopAt) by {
            assert(init[j] == ps[j]);
        }
        lemma_last_stop_stage_wins(init, i, st);
    }
}

/// Without any stop-stage flag compilation goes on to `Link`.
pub proof fn lemma_no_stop_stage_default(ps: Seq<ArgModel>)
    requires
        forall|j: int| 0 <= j < ps.len() ==> !(#[trigger] ps[j] is StopAt),
        fold_arguments(ps) is Ok,
    ensures
        fold_arguments(ps)->Ok_0.stop_stage == CompilerStage::Link,
    decreases ps.len(),
{
    if ps.len() > 0 {
        let init = ps.drop_last();
        assert(!(ps[ps.len() - 1] is StopAt));
        assert forall|j: int| 0 <= j < init.len() implies !(#[trigger] init[j] is StopAt) by {
            assert(init[j] == ps[j]);
        }
        lemma_no_stop_stage_default(init);
    }
}

/// An argument that names no option is never ignored: once it has been
/// classified, folding the classified arguments fails.
pub proof fn lemma_unknown_argument_refused(ps: Seq<ArgModel>, i: int)
    requires
        0 <= i < ps.len(),
        ps[i] is Unknown,
    ensures
        fold_arguments(ps) is Err,
{
    assert(ps.take(i + 1).drop_last() =~= ps.take(i));
    assert(ps.take(i + 1).last() == ps[i]);
    assert(fold_arguments(ps.take(i + 1)) is Err);
    lemma_fold_error_persists(ps, i + 1);
}

/// Once the fold of a prefix has failed, the fold of any longer prefix
/// fails with the same argument.
proof fn lemma_fold_error_persists(all: Seq<ArgModel>, k: int)
    requires
        0 <= k <= all.len(),
        fold_arguments(all.take(k)) is Err,
    ensures
        fold_arguments(all) == fold_arguments(all.take(k)),
    decreases all.len() - k,
{
    if k == all.len() {
        assert(all.take(k) =~= all);
    } else {
        assert(all.take(k + 1).drop_last() =~= all.take(k));
        lemma_fold_error_persists(all, k + 1);
    }
}

} // verus!
