use mdcpl::driver::arg_driver::{ArgDriver, ArgError, CompilerStage, OptimizationLevel};
use mdcpl::driver::{Driver, PipelineStep};

fn strings(v: &[&str]) -> Vec<String> {
    v.iter().map(|s| s.to_string()).collect()
}

#[test]
fn no_arguments_give_defaults() {
    let mut d = ArgDriver::new(Vec::new());
    let o = d.parse().unwrap();
    assert!(o.input_files.is_empty());
    assert_eq!(o.output_file, Some(String::new()));
    assert_eq!(o.stop_stage, CompilerStage::Link);
    assert_eq!(o.optimization, OptimizationLevel::Zero);
}

#[test]
fn later_flags_override_earlier_ones() {
    let mut d = ArgDriver::new(strings(&["a.c", "-O1", "--lex", "-o", "x", "b.c", "-O3", "--codegen", "-o", "y"]));
    let o = d.parse().unwrap();
    assert_eq!(o.input_files, strings(&["a.c", "b.c"]));
    assert_eq!(o.output_file, Some("y".to_string()));
    assert_eq!(o.stop_stage, CompilerStage::Assemble);
    assert_eq!(o.optimization, OptimizationLevel::O3);
}

#[test]
fn output_name_is_taken_whatever_it_is() {
    let mut d = ArgDriver::new(strings(&["-o", "prog.c", "--lex"]));
    let o = d.parse().unwrap();
    assert!(o.input_files.is_empty());
    assert_eq!(o.output_file, Some("prog.c".to_string()));
    assert_eq!(o.stop_stage, CompilerStage::Lex);
}

#[test]
fn plain_words_are_ignored() {
    let mut d = ArgDriver::new(strings(&["mdcpl", "notes.txt", "x.c"]));
    let o = d.parse().unwrap();
    assert_eq!(o.input_files, strings(&["x.c"]));
}

#[test]
fn a_c_suffix_wins_over_dashes() {
    let mut d = ArgDriver::new(strings(&["--weird.c", "-O4.c"]));
    let o = d.parse().unwrap();
    assert_eq!(o.input_files, strings(&["--weird.c", "-O4.c"]));
}

#[test]
fn first_unknown_argument_is_reported() {
    let mut d = ArgDriver::new(strings(&["a.c", "-x", "--nope"]));
    let e = d.parse().unwrap_err();
    assert_eq!(e.to_string(), "Unknown argument: -x");
}

#[test]
fn missing_output_name_is_found_before_unknown_arguments() {
    let mut d = ArgDriver::new(strings(&["-x", "a.c", "-o"]));
    let e = d.parse().unwrap_err();
    assert!(matches!(e, ArgError::MissingOutputFileName));
    assert_eq!(e.to_string(), "'-o' flag requires an output filename");
}

#[test]
fn parsing_twice_classifies_the_arguments_again() {
    let mut d = ArgDriver::new(strings(&["a.c", "b.c"]));
    assert_eq!(d.parse().unwrap().input_files.len(), 2);
    assert_eq!(d.parse().unwrap().input_files, strings(&["a.c", "b.c", "a.c", "b.c"]));
}

#[test]
fn error_messages() {
    assert_eq!(ArgError::UnknownArgument("-q".to_string()).to_string(), "Unknown argument: -q");
    assert_eq!(ArgError::MissingOutputFileName.to_string(), "'-o' flag requires an output filename");
}

#[test]
fn driver_drops_the_program_name() {
    let d = Driver::new(strings(&["a.c", "b.c", "--lex"])).ok().unwrap();
    assert_eq!(d.compiler_options().input_files, strings(&["b.c"]));
    assert_eq!(d.compiler_options().stop_stage, CompilerStage::Lex);
    assert_eq!(d.source_file, "");
    assert_eq!(d.preprocessor_file, "");
    assert_eq!(d.assembly_file, "");
}

#[test]
fn driver_reports_argument_errors() {
    let e = Driver::new(strings(&["mdcpl", "-O9"])).err().unwrap();
    assert_eq!(e.to_string(), "Unknown argument: -O9");
}

#[test]
fn file_names_follow_the_last_dot() {
    let mut d = Driver::new(strings(&["mdcpl"])).ok().unwrap();
    d.make_file_names("dir.v2/prog.c".to_string());
    assert_eq!(d.source_file, "dir.v2/prog");
    assert_eq!(d.preprocessor_file, "dir.v2/prog.i");
    assert_eq!(d.assembly_file, "dir.v2/prog.s");
    d.make_file_names("a.b.c".to_string());
    assert_eq!(d.source_file, "a.b");
    d.make_file_names("noext".to_string());
    assert_eq!(d.source_file, "");
    assert_eq!(d.preprocessor_file, ".i");
    assert_eq!(d.assembly_file, ".s");
    d.make_file_names("héllo.c".to_string());
    assert_eq!(d.preprocessor_file, "héllo.i");
}

#[test]
fn steps_per_stop_stage() {
    let d = Driver::new(strings(&["mdcpl", "a.c"])).ok().unwrap();
    assert_eq!(d.steps(), vec![PipelineStep::Preprocess, PipelineStep::Cleanup]);
    let d = Driver::new(strings(&["mdcpl", "a.c", "--lex"])).ok().unwrap();
    assert_eq!(d.steps(), vec![PipelineStep::Preprocess, PipelineStep::Lex, PipelineStep::Cleanup]);
    let d = Driver::new(strings(&["mdcpl", "a.c", "--parse"])).ok().unwrap();
    assert_eq!(d.steps(), vec![PipelineStep::Preprocess, PipelineStep::Parse, PipelineStep::Cleanup]);
    let d = Driver::new(strings(&["mdcpl", "a.c", "--codegen"])).ok().unwrap();
    assert_eq!(d.steps(), vec![PipelineStep::Preprocess, PipelineStep::AssembleAndLink, PipelineStep::Cleanup]);
}

#[test]
fn command_arguments() {
    let mut d = Driver::new(strings(&["mdcpl", "a.c"])).ok().unwrap();
    d.make_file_names("a.c".to_string());
    assert_eq!(d.preprocess_arguments("a.c"), strings(&["-E", "-P", "a.c", "-o", "a.i"]));
    assert_eq!(d.link_arguments(), strings(&["a.s", "-o", ""]));
    let mut d = Driver::new(strings(&["mdcpl", "a.c", "-o", "prog"])).ok().unwrap();
    d.make_file_names("a.c".to_string());
    assert_eq!(d.link_arguments(), strings(&["a.s", "-o", "prog"]));
}
