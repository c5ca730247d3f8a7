use mdcpl::driver::arg_driver::{ArgDriver, CompilerOptions, CompilerStage, OptimizationLevel};

#[test]
fn test_multiple_input_files() {
    let arg_vec: Vec<String> = Vec::from(["mdcpl".to_string(), "first.c".to_string(), "second.c".to_string(), "third.c".to_string()]);
    let mut arg_driver: ArgDriver = ArgDriver::new(arg_vec);
    let compiler_options: CompilerOptions = arg_driver.parse().unwrap();
    assert_eq!(compiler_options.input_files.len(), 3);
    assert_eq!(compiler_options.output_file, Some("".to_string()));
    assert_eq!(compiler_options.stop_stage, CompilerStage::Link);
    assert_eq!(compiler_options.optimization, OptimizationLevel::Zero);
}

#[test]
fn test_valid_stop_stage() {
    let mut arg_vec: Vec<String> = Vec::from(["mdcpl".to_string(), "source.c".to_string()]);
    let stage_vec: Vec<CompilerStage> = Vec::from([CompilerStage::Lex, CompilerStage::Parse, CompilerStage::Assemble]);
    let mut stage_str = "".to_string();
    for stage in stage_vec {
        if stage == CompilerStage::Lex {
            stage_str = String::from("--lex");
        }
        if stage == CompilerStage::Parse {
            stage_str = String::from("--parse");
        }
        if stage == CompilerStage::Assemble {
            stage_str = String::from("--codegen")
        }
        arg_vec.push(stage_str.clone());
        let mut arg_driver: ArgDriver = ArgDriver::new(arg_vec.clone());
        let compiler_options: CompilerOptions = arg_driver.parse().unwrap();
        assert_eq!(compiler_options.input_files.len(), 1);
        assert_eq!(compiler_options.output_file, Some("".to_string()));
        assert_eq!(compiler_options.stop_stage, stage);
        assert_eq!(compiler_options.optimization, OptimizationLevel::Zero);
        arg_vec.pop();
    }
}

#[test]
fn test_valid_optimization_levels() {
    let mut arg_vec: Vec<String> = Vec::from(["mdcpl".to_string(), "source.c".to_string()]);
    let optimization_vec: Vec<OptimizationLevel> = Vec::from([OptimizationLevel::O1, OptimizationLevel::O2, OptimizationLevel::O3]);
    let mut opt_string = "".to_string();
    for level in optimization_vec {
        if level == OptimizationLevel::O1 {
            opt_string = String::from("-O1");
        }
        if level == OptimizationLevel::O2 {
            opt_string = String::from("-O2");
        }
        if level == OptimizationLevel::O3 {
            opt_string = String::from("-O3");
        }
        arg_vec.push(opt_string.clone());
        let mut arg_driver: ArgDriver = ArgDriver::new(arg_vec.clone());
        let compiler_options: CompilerOptions = arg_driver.parse().unwrap();
        assert_eq!(compiler_options.input_files.len(), 1);
        assert_eq!(compiler_options.output_file, Some("".to_string()));
        assert_eq!(compiler_options.stop_stage, CompilerStage::Link);
        assert_eq!(compiler_options.optimization, level);
        arg_vec.pop();
    }
}

#[test]
fn test_output_file() {
    let arg_vec: Vec<String> = Vec::from(["mdcpl".to_string(), "source.c".to_string(), "-o".to_string(), "out_source".to_string()]);
    let mut arg_driver: ArgDriver = ArgDriver::new(arg_vec);
    let compiler_options: CompilerOptions = arg_driver.parse().unwrap();
    assert_eq!(compiler_options.input_files.len(), 1);
    assert_eq!(compiler_options.output_file, Some("out_source".to_string()));
    assert_eq!(compiler_options.stop_stage, CompilerStage::Link);
    assert_eq!(compiler_options.optimization, OptimizationLevel::Zero);
}

#[test]
fn test_bad_stage_arg() {
    let arg_vec: Vec<String> = Vec::from(["mdcpl".to_string(), "source.c".to_string(), "--bad-argument".to_string()]);
    let mut arg_driver: ArgDriver = ArgDriver::new(arg_vec);
    let err = arg_driver.parse().unwrap_err();
    assert!(err.to_string().contains("Unknown argument: --bad-argument"));
}

#[test]
fn test_bad_optimization_arg() {
    let arg_vec: Vec<String> = Vec::from(["mdcpl".to_string(), "source.c".to_string(), "-O4".to_string()]);
    let mut arg_driver: ArgDriver = ArgDriver::new(arg_vec);
    let err = arg_driver.parse().unwrap_err();
    assert!(err.to_string().contains("Unknown argument: -O4"));
}

#[test]
fn test_output_file_arg_without_file_name() {
    let arg_vec: Vec<String> = Vec::from(["mdcpl".to_string(), "source.c".to_string(), "-o".to_string()]);
    let mut arg_driver: ArgDriver = ArgDriver::new(arg_vec);
    let err = arg_driver.parse().unwrap_err();
    assert!(err.to_string().contains("'-o' flag requires an output filename"));
}
