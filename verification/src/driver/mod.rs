//! The compiler driver: options, the names of intermediate files, and the
//! steps a compilation goes through for each input file.

pub mod arg_driver;

use vstd::prelude::*;
use arg_driver::{ArgDriver, ArgError, CompilerOptions, CompilerStage, OptionsModel, outcome_view, parse_outcome};

verus! {

/// One step of the compilation of an input file.
#[derive(Debug, PartialEq, Eq, Clone, Copy, Structural)]
pub enum PipelineStep {
    /// Run the C preprocessor on the source file.
    Preprocess,
    /// Read the preprocessed file and scan it.
    Lex,
    /// Parse the scanned file (not available yet).
    Parse,
    /// Assemble and link the assembly file.
    AssembleAndLink,
    /// Remove the preprocessed file.
    Cleanup,
}

/// The steps for one input file when the compilation stops at `stage`.
pub open spec fn pipeline_for(stage: CompilerStage) -> Seq<PipelineStep> {
    seq![PipelineStep::Preprocess] + match stage {
        CompilerStage::Lex => seq![PipelineStep::Lex],
        CompilerStage::Parse => seq![PipelineStep::Parse],
        CompilerStage::Assemble => seq![PipelineStep::AssembleAndLink],
        _ => Seq::empty(),
    } + seq![PipelineStep::Cleanup]
}

/// The index of the last `.` in `s`, if there is one.
pub open spec fn last_dot(s: Seq<char>) -> Option<int>
    decreases s.len(),
{
    if s.len() == 0 {
        None
    } else if s.last() == '.' {
        Some(s.len() - 1)
    } else {
        last_dot(s.drop_last())
    }
}

/// A file name without its extension: what precedes the last `.`, or
/// nothing when there is no `.`.
pub open spec fn file_stem(s: Seq<char>) -> Seq<char> {
    match last_dot(s) {
        Some(j) => s.take(j),
        None => Seq::empty(),
    }
}

/// The name the linked program gets: the `-o` name, else `a.out`.
pub open spec fn output_name(o: OptionsModel) -> Seq<char> {
    match o.output_file {
        Some(f) => f,
        None => "a.out"@,
    }
}

/// The arguments given to the compiler driver for each input file.
pub struct Driver {
    pub source_file: String,
    pub preprocessor_file: String,
    pub assembly_file: String,
    compiler_options: CompilerOptions,
}

impl Driver {
    /// The options of the compilation.
    pub closed spec fn options(&self) -> OptionsModel {
        self.compiler_options@
    }

    /// The source file's name without its extension.
    pub closed spec fn source_name(&self) -> Seq<char> {
        self.source_file@
    }

    /// The name of the preprocessed file.
    pub closed spec fn preprocessed_name(&self) -> Seq<char> {
        self.preprocessor_file@
    }

    /// The name of the assembly file.
    pub closed spec fn assembly_name(&self) -> Seq<char> {
        self.assembly_file@
    }

    /// A driver for a command line; the first argument (the compiler's own
    /// name) is dropped, the others are parsed into options.
    pub fn new(arg_vec: Vec<String>) -> (res: Result<Self, ArgError>)
        requires
            arg_vec@.len() > 0,
        ensures
            match (res, parse_outcome(Seq::empty(), arg_vec@.skip(1).map_values(|s: String| s@))) {
                (Ok(d), Ok(o)) => {
                    &&& d.options() == o
                    &&& d.source_name() == Seq::<char>::empty()
                    &&& d.preprocessed_name() == Seq::<char>::empty()
                    &&& d.assembly_name() == Seq::<char>::empty()
                },
                (Err(e), Err(m)) => e@ == m,
                _ => false,
            },
    {
        let mut arg_vec = arg_vec;
        let ghost all = arg_vec@;
        arg_vec.remove(0);
        assert(arg_vec@ =~= all.skip(1));
        let mut arg_driver = ArgDriver::new(arg_vec);
        let compiler_opts = arg_driver.parse();
        match compiler_opts {
            Ok(opts) => Ok(
                Driver {
                    source_file: String::new(),
                    preprocessor_file: String::new(),
                    assembly_file: String::new(),
                    compiler_options: opts,
                },
            ),
            Err(e) => Err(e),
        }
    }

    /// The options of the compilation.
    pub fn compiler_options(&self) -> (res: &CompilerOptions)
        ensures
            res@ == self.options(),
    {
        &self.compiler_options
    }

    /// Names the intermediate files after `input_file` without its
    /// extension: `.i` for the preprocessed file, `.s` for the assembly.
    pub fn make_file_names(&mut self, input_file: String)
        ensures
            final(self).options() == old(self).options(),
            final(self).source_name() == file_stem(input_file@),
            final(self).preprocessed_name() == file_stem(input_file@) + ".i"@,
            final(self).assembly_name() == file_stem(input_file@) + ".s"@,
    {
        let n = input_file.as_str().unicode_len();
        let mut j: usize = n;
        let ghost s = input_file@;
        let mut extension_index: usize = 0;
        let mut found = false;
        assert(s.take(n as int) =~= s);
        while j > 0
            invariant
                j <= n,
                n == s.len(),
                s == input_file@,
                !found ==> last_dot(s) == last_dot(s.take(j as int)),
                found ==> extension_index < n && last_dot(s) == Some(extension_index as int),
                !found ==> extension_index == 0,
                found ==> j == 0,
            decreases j,
        {
            let ghost t = s.take(j as int);
            assert(t.drop_last() =~= s.take(j - 1));
            assert(t.last() == s[j - 1]);
            if input_file.as_str().get_char(j - 1) == '.' {
                extension_index = j - 1;
                found = true;
                j = 0;
            } else {
                j = j - 1;
            }
        }
        proof {
            if !found {
                assert(s.take(0) =~= Seq::<char>::empty());
            }
        }
        let stem = input_file.as_str().substring_char(0, extension_index);
        assert(stem@ =~= file_stem(s));
        self.preprocessor_file = stem.to_owned().concat(".i");
        self.assembly_file = stem.to_owned().concat(".s");
        self.source_file = stem.to_owned();
    }

    /// The steps each input file goes through.
    pub fn steps(&self) -> (res: Vec<PipelineStep>)
        ensures
            res@ == pipeline_for(self.options().stop_stage),
    {
        let mut v: Vec<PipelineStep> = Vec::new();
        v.push(PipelineStep::Preprocess);
        match self.compiler_options.stop_stage {
            CompilerStage::Lex => v.push(PipelineStep::Lex),
            CompilerStage::Parse => v.push(PipelineStep::Parse),
            CompilerStage::Assemble => v.push(PipelineStep::AssembleAndLink),
            _ => {},
        }
        v.push(PipelineStep::Cleanup);
        assert(v@ =~= pipeline_for(self.options().stop_stage));
        v
    }

    /// The arguments of the preprocessor run on `source`:
    /// `-E -P source -o preprocessed-file`.
    pub fn preprocess_arguments(&self, source: &str) -> (res: Vec<String>)
        ensures
            res@.map_values(|s: String| s@) == seq![
                "-E"@,
                "-P"@,
                source@,
                "-o"@,
                self.preprocessed_name(),
            ],
    {
        let mut v: Vec<String> = Vec::new();
        v.push("-E".to_owned());
        v.push("-P".to_owned());
        v.push(source.to_owned());
        v.push("-o".to_owned());
        v.push(self.preprocessor_file.clone());
        assert(v@.map_values(|s: String| s@) =~= seq![
            "-E"@,
            "-P"@,
            source@,
            "-o"@,
            self.preprocessor_file@,
        ]);
        v
    }

    /// The arguments of the assembler and linker run:
    /// `assembly-file -o output-name`.
    pub fn link_arguments(&self) -> (res: Vec<String>)
        ensures
            res@.map_values(|s: String| s@) == seq![
                self.assembly_name(),
                "-o"@,
                output_name(self.options()),
            ],
    {
        let mut v: Vec<String> = Vec::new();
        v.push(self.assembly_file.clone());
        v.push("-o".to_owned());
        let out = match &self.compiler_options.output_file {
            Some(f) => f.clone(),
            None => "a.out".to_owned(),
        };
        v.push(out);
        assert(v@.map_values(|s: String| s@) =~= seq![
            self.assembly_file@,
            "-o"@,
            output_name(self.options()),
        ]);
        v
    }
}

} // verus!
