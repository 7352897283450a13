use fuzzcore::clang::{ClangWrapper, LLVMPasses};
use fuzzcore::error::Error;

fn owned(args: &[&str]) -> Vec<String> {
    args.iter().map(|s| s.to_string()).collect()
}

#[test]
fn test_clang_version() {
    let mut cc = ClangWrapper::new();
    cc.wrapped_cc("clang".to_string());
    cc.wrapped_cxx("clang++".to_string());
    cc.from_args(&owned(&["my-clang", "-v"])).unwrap();
    let cmd = cc.command().unwrap();
    assert_eq!(cmd[0], "clang");
    assert!(cmd.contains(&"-v".to_string()));
    assert!(!cc.is_linking());
}

#[test]
fn from_args_rejects_empty_and_bare_invocations() {
    let mut cc = ClangWrapper::new();
    assert!(matches!(
        cc.from_args(&owned(&[])),
        Err(Error::InvalidArguments(_))
    ));
    assert!(matches!(
        cc.from_args(&owned(&["my-clang"])),
        Err(Error::InvalidArguments(_))
    ));
}

#[test]
fn from_args_strips_linker_flags_and_appends_defines() {
    let mut cc = ClangWrapper::new();
    cc.from_args(&owned(&["cc", "a.c", "-Wl,-z,defs", "-Wl,--no-undefined", "-o", "a.out"]))
        .unwrap();
    let cmd = cc.command().unwrap();
    assert!(!cmd.contains(&"-Wl,-z,defs".to_string()));
    assert!(!cmd.contains(&"-Wl,--no-undefined".to_string()));
    assert!(cmd.contains(&"a.c".to_string()));
    assert!(cmd.contains(&"-g".to_string()));
    assert!(cmd.contains(&"-O3".to_string()));
    assert!(cmd.contains(&"-funroll-loops".to_string()));
    assert!(cmd.contains(&"-DFUZZING_BUILD_MODE_UNSAFE_FOR_PRODUCTION=1".to_string()));
    assert!(cc.is_linking());
}

#[test]
fn from_args_without_optimize_skips_optimize_flags() {
    let mut cc = ClangWrapper::new();
    cc.dont_optimize();
    cc.from_args(&owned(&["cc", "a.c"])).unwrap();
    let cmd = cc.command().unwrap();
    assert!(!cmd.contains(&"-O3".to_string()));
    assert!(cmd.contains(&"-DFUZZING_BUILD_MODE_UNSAFE_FOR_PRODUCTION=1".to_string()));
}

#[test]
fn from_args_records_bit_mode_and_compile_only() {
    let mut cc = ClangWrapper::new();
    cc.from_args(&owned(&["cc", "-m32", "-c", "a.c"])).unwrap();
    assert_eq!(cc.bit_mode, 32);
    assert!(!cc.is_linking());

    let mut cc64 = ClangWrapper::new();
    cc64.from_args(&owned(&["cc", "-m32", "-m64", "a.c"])).unwrap();
    assert_eq!(cc64.bit_mode, 64);
    assert!(cc64.is_linking());
}

#[test]
fn cpp_mode_picks_the_cxx_compiler() {
    let mut cc = ClangWrapper::new();
    cc.from_args(&owned(&["my-clang++", "a.cpp"])).unwrap();
    let cmd = cc.command().unwrap();
    assert_eq!(cmd[0], "clang++");

    let mut cc2 = ClangWrapper::new();
    cc2.is_cpp(true);
    cc2.from_args(&owned(&["plain-cc", "a.cpp"])).unwrap();
    let cmd2 = cc2.command().unwrap();
    assert_eq!(cmd2[0], "clang++");
}

#[test]
fn x_flag_adds_x_none_when_linking() {
    let mut cc = ClangWrapper::new();
    cc.from_args(&owned(&["cc", "-x", "cu", "a.o"])).unwrap();
    assert!(cc.is_linking());
    let cmd = cc.command().unwrap();
    // the rebuilt command keeps the flag as given and appends the
    // "-x none" pair before the link arguments
    assert!(cmd.iter().any(|a| a == "-x"));
    assert_eq!(cmd[cmd.len() - 2], "-x");
    assert_eq!(cmd[cmd.len() - 1], "none");
}

#[test]
fn pass_path_joins_the_build_directory() {
    let pass = LLVMPasses::CmpLogRtn;
    assert_eq!(pass.path("/tmp/build"), "/tmp/build/cmplog-routines-pass.so");
}

#[test]
fn command_loads_each_pass() {
    let mut cc = ClangWrapper::new();
    cc.from_args(&owned(&["cc", "a.c"])).unwrap();
    cc.passes_dir("/p".to_string());
    cc.add_pass(LLVMPasses::CmpLogRtn);
    let cmd = cc.command().unwrap();
    let idx = cmd.iter().position(|a| a == "-Xclang").unwrap();
    assert_eq!(cmd[idx + 1], "-load");
    assert_eq!(cmd[idx + 2], "-Xclang");
    assert_eq!(cmd[idx + 3], "/p/cmplog-routines-pass.so");
}

#[test]
fn link_staticlib_wraps_the_archive_whole() {
    let mut cc = ClangWrapper::new();
    cc.from_args(&owned(&["cc", "a.o"])).unwrap();
    cc.link_staticlib(&"/libs".to_string(), &"fuzzbench".to_string());
    let cmd = cc.command().unwrap();
    let idx = cmd.iter().position(|a| a == "-Wl,--whole-archive").unwrap();
    assert_eq!(cmd[idx + 1], "/libs/libfuzzbench.a");
    assert_eq!(cmd[idx + 2], "-Wl,-no-whole-archive");
}

#[test]
fn silence_and_cc_args() {
    let mut cc = ClangWrapper::new();
    cc.from_args(&owned(&["cc", "-c", "a.c"])).unwrap();
    cc.add_cc_arg("-Wextra".to_string());
    cc.add_link_arg("-lm".to_string());
    assert!(!cc.is_silent());
    cc.silence();
    assert!(cc.is_silent());
    let cmd = cc.command().unwrap();
    // not linking: the compile-only arguments are used, the link ones not
    assert!(cmd.contains(&"-Wextra".to_string()));
    assert!(!cmd.contains(&"-lm".to_string()));
}
