use msvc_cache::{
    classify, parse_arguments, CompilerArguments, OutputKind, Outputs, ParsedArguments,
};

fn strings(items: &[&str]) -> Vec<String> {
    items.iter().map(|s| s.to_string()).collect()
}

fn output<'a>(outputs: &'a Outputs, name: &str) -> Option<&'a str> {
    let kind = OutputKind::from_name(name).expect("a known kind of output");
    outputs.get(kind).map(|s| s.as_str())
}

#[test]
fn test_parse_arguments_simple() {
    match parse_arguments(&strings(&["-c", "foo.c", "-Fofoo.obj"])) {
        CompilerArguments::Parsed(ParsedArguments {
            input,
            extension,
            depfile: _depfile,
            outputs,
            preprocessor_args,
            common_args,
        }) => {
            assert!(true, "Parsed ok");
            assert_eq!("foo.c", input);
            assert_eq!("c", extension);
            assert_eq!(Some("foo.obj"), output(&outputs, "obj"));
            assert_eq!(1, outputs.len());
            assert!(preprocessor_args.is_empty());
            assert!(common_args.is_empty());
        }
        o => assert!(false, "Got unexpected parse result: {:?}", o),
    }
}

#[test]
fn test_parse_arguments_extra() {
    match parse_arguments(&strings(&["-c", "foo.c", "-foo", "-Fofoo.obj", "-bar"])) {
        CompilerArguments::Parsed(ParsedArguments {
            input,
            extension,
            depfile: _depfile,
            outputs,
            preprocessor_args,
            common_args,
        }) => {
            assert!(true, "Parsed ok");
            assert_eq!("foo.c", input);
            assert_eq!("c", extension);
            assert_eq!(Some("foo.obj"), output(&outputs, "obj"));
            assert_eq!(1, outputs.len());
            assert!(preprocessor_args.is_empty());
            assert_eq!(common_args, &["-foo", "-bar"]);
        }
        o => assert!(false, "Got unexpected parse result: {:?}", o),
    }
}

#[test]
fn test_parse_arguments_values() {
    match parse_arguments(&strings(&["-c", "foo.c", "-FI", "file", "-Fofoo.obj"])) {
        CompilerArguments::Parsed(ParsedArguments {
            input,
            extension,
            depfile: _depfile,
            outputs,
            preprocessor_args,
            common_args,
        }) => {
            assert!(true, "Parsed ok");
            assert_eq!("foo.c", input);
            assert_eq!("c", extension);
            assert_eq!(Some("foo.obj"), output(&outputs, "obj"));
            assert_eq!(1, outputs.len());
            assert!(preprocessor_args.is_empty());
            assert_eq!(common_args, &["-FI", "file"]);
        }
        o => assert!(false, "Got unexpected parse result: {:?}", o),
    }
}

#[test]
fn test_parse_arguments_pdb() {
    match parse_arguments(&strings(&["-c", "foo.c", "-Zi", "-Fdfoo.pdb", "-Fofoo.obj"])) {
        CompilerArguments::Parsed(ParsedArguments {
            input,
            extension,
            depfile: _depfile,
            outputs,
            preprocessor_args,
            common_args,
        }) => {
            assert!(true, "Parsed ok");
            assert_eq!("foo.c", input);
            assert_eq!("c", extension);
            assert_eq!(Some("foo.obj"), output(&outputs, "obj"));
            assert_eq!(Some("foo.pdb"), output(&outputs, "pdb"));
            assert_eq!(2, outputs.len());
            assert!(preprocessor_args.is_empty());
            assert_eq!(common_args, &["-Zi", "-Fdfoo.pdb"]);
        }
        o => assert!(false, "Got unexpected parse result: {:?}", o),
    }
}

#[test]
fn test_parse_arguments_empty_args() {
    assert_eq!(CompilerArguments::NotCompilation, parse_arguments(&vec![]));
}

#[test]
fn test_parse_arguments_not_compile() {
    assert_eq!(
        CompilerArguments::NotCompilation,
        parse_arguments(&strings(&["-Fofoo", "foo.c"]))
    );
}

#[test]
fn test_parse_arguments_too_many_inputs() {
    assert_eq!(
        CompilerArguments::CannotCache,
        parse_arguments(&strings(&["-c", "foo.c", "-Fofoo.obj", "bar.c"]))
    );
}

#[test]
fn test_parse_arguments_unsupported() {
    assert_eq!(
        CompilerArguments::CannotCache,
        parse_arguments(&strings(&["-c", "foo.c", "-Fofoo.obj", "-FA"]))
    );

    assert_eq!(
        CompilerArguments::CannotCache,
        parse_arguments(&strings(&["-Fa", "-c", "foo.c", "-Fofoo.obj"]))
    );

    assert_eq!(
        CompilerArguments::CannotCache,
        parse_arguments(&strings(&["-c", "foo.c", "-FR", "-Fofoo.obj"]))
    );
}

#[test]
fn test_parse_arguments_response_file() {
    assert_eq!(
        CompilerArguments::CannotCache,
        parse_arguments(&strings(&["-c", "foo.c", "@foo", "-Fofoo.obj"]))
    );
}

#[test]
fn test_parse_arguments_missing_pdb() {
    assert_eq!(
        CompilerArguments::CannotCache,
        parse_arguments(&strings(&["-c", "foo.c", "-Zi", "-Fofoo.obj"]))
    );
}

fn parsed(items: &[&str]) -> ParsedArguments {
    match parse_arguments(&strings(items)) {
        CompilerArguments::Parsed(parsed) => parsed,
        o => panic!("Got unexpected parse result: {:?}", o),
    }
}

#[test]
fn every_unsupported_flag_rules_caching_out() {
    for flag in ["-FA", "-Fa", "-Fe", "-Fm", "-Fp", "-FR", "-Fx", "-showIncludes", "@rsp", "@"] {
        assert_eq!(
            CompilerArguments::CannotCache,
            parse_arguments(&strings(&["-c", "foo.c", "-Fofoo.obj", flag])),
            "{}",
            flag
        );
    }
}

#[test]
fn unsupported_flag_wins_over_missing_compile_flag() {
    assert_eq!(CompilerArguments::CannotCache, parse_arguments(&strings(&["-FA"])));
    assert_eq!(CompilerArguments::CannotCache, parse_arguments(&strings(&["a.c", "b.c"])));
    assert_eq!(CompilerArguments::NotCompilation, parse_arguments(&strings(&["a.c", "-Zi"])));
}

#[test]
fn longer_flags_with_an_unsupported_start_pass_through() {
    let p = parsed(&["-c", "foo.c", "-Fofoo.obj", "-Fefoo.exe", "-FAs", "-showIncludesX"]);
    assert_eq!(p.common_args, &["-Fefoo.exe", "-FAs", "-showIncludesX"]);
}

#[test]
fn forced_include_takes_the_next_token_whatever_it_is() {
    let p = parsed(&["-FI", "-c", "-c", "foo.c", "-Fofoo.obj", "-FI", "@x", "-FI", "bar.c"]);
    assert_eq!(p.common_args, &["-FI", "-c", "-FI", "@x", "-FI", "bar.c"]);
    assert_eq!("foo.c", p.input);
}

#[test]
fn forced_include_as_last_token_stands_alone() {
    let p = parsed(&["-c", "foo.c", "-Fofoo.obj", "-FI"]);
    assert_eq!(p.common_args, &["-FI"]);
}

#[test]
fn compile_flag_taken_as_a_value_does_not_count() {
    assert_eq!(
        CompilerArguments::NotCompilation,
        parse_arguments(&strings(&["-FI", "-c", "foo.c", "-Fofoo.obj"]))
    );
}

#[test]
fn later_output_flag_replaces_the_earlier() {
    let p = parsed(&["-c", "-Foa.obj", "foo.c", "-Fob.obj"]);
    assert_eq!(Some("b.obj"), output(&p.outputs, "obj"));
    assert_eq!(1, p.outputs.len());
    assert!(p.common_args.is_empty());
}

#[test]
fn dependency_file_flag_is_recorded_and_not_handed_on() {
    let p = parsed(&["-c", "foo.c", "-Fofoo.obj", "-depsfoo.d", "-W4"]);
    assert_eq!(Some("foo.d".to_string()), p.depfile);
    assert_eq!(p.common_args, &["-W4"]);
    let q = parsed(&["-c", "foo.c", "-Fofoo.obj"]);
    assert_eq!(None, q.depfile);
}

#[test]
fn symbols_flag_without_debug_info_is_handed_on_only() {
    let p = parsed(&["-c", "foo.c", "-Fdfoo.pdb", "-Fofoo.obj"]);
    assert_eq!(None, output(&p.outputs, "pdb"));
    assert_eq!(1, p.outputs.len());
    assert_eq!(p.common_args, &["-Fdfoo.pdb"]);
}

#[test]
fn debug_flags_keep_their_order() {
    let p = parsed(&["-Fdfoo.pdb", "-c", "-W4", "foo.c", "-Zi", "-Fofoo.obj"]);
    assert_eq!(p.common_args, &["-Fdfoo.pdb", "-W4", "-Zi"]);
    assert_eq!(Some("foo.pdb"), output(&p.outputs, "pdb"));
    assert_eq!(2, p.outputs.len());
}

#[test]
fn missing_input_output_or_extension_cannot_be_cached() {
    assert_eq!(CompilerArguments::CannotCache, parse_arguments(&strings(&["-c", "-Fofoo.obj"])));
    assert_eq!(CompilerArguments::CannotCache, parse_arguments(&strings(&["-c", "foo.c"])));
    assert_eq!(
        CompilerArguments::CannotCache,
        parse_arguments(&strings(&["-c", "foo", "-Fofoo.obj"]))
    );
    assert_eq!(
        CompilerArguments::CannotCache,
        parse_arguments(&strings(&["-c", ".c", "-Fofoo.obj"]))
    );
    assert_eq!(
        CompilerArguments::CannotCache,
        parse_arguments(&strings(&["-c", "-", "-Fofoo.obj"]))
    );
    assert_eq!(
        CompilerArguments::CannotCache,
        parse_arguments(&strings(&["-c", "", "-Fofoo.obj"]))
    );
}

#[test]
fn extension_is_what_follows_the_last_dot_of_the_file_name() {
    assert_eq!("gz", parsed(&["-c", "foo.tar.gz", "-Fofoo.obj"]).extension);
    assert_eq!("cpp", parsed(&["-c", "src.d/foo.cpp", "-Fofoo.obj"]).extension);
    assert_eq!("", parsed(&["-c", "foo.", "-Fofoo.obj"]).extension);
    assert_eq!("src.d/foo.cpp", parsed(&["-c", "src.d/foo.cpp", "-Fofoo.obj"]).input);
    assert_eq!(
        CompilerArguments::CannotCache,
        parse_arguments(&strings(&["-c", "src.d/foo", "-Fofoo.obj"]))
    );
}

#[test]
fn empty_output_path_is_recorded_as_given() {
    let p = parsed(&["-c", "foo.c", "-Fo"]);
    assert_eq!(Some(""), output(&p.outputs, "obj"));
}

#[test]
fn classify_uses_the_extension_it_is_given() {
    let args = strings(&["-c", "foo.c", "-Fofoo.obj"]);
    match classify(&args, Some("xyz".to_string())) {
        CompilerArguments::Parsed(p) => {
            assert_eq!("xyz", p.extension);
            assert_eq!("foo.c", p.input);
        }
        o => panic!("Got unexpected parse result: {:?}", o),
    }
    assert_eq!(CompilerArguments::CannotCache, classify(&args, None));
    assert_eq!(
        CompilerArguments::NotCompilation,
        classify(&strings(&["foo.c"]), Some("c".to_string()))
    );
}

#[test]
fn classification_twice_gives_the_same() {
    let args = strings(&["-c", "foo.c", "-Zi", "-Fdfoo.pdb", "-FI", "x.h", "-Fofoo.obj"]);
    assert_eq!(parse_arguments(&args), parse_arguments(&args));
    let rejected = strings(&["-c", "foo.c", "-FA"]);
    assert_eq!(parse_arguments(&rejected), parse_arguments(&rejected));
}

#[test]
fn output_kinds_have_their_names() {
    assert_eq!("obj", OutputKind::Object.name());
    assert_eq!("pdb", OutputKind::DebugSymbols.name());
    assert_eq!(Some(OutputKind::Object), OutputKind::from_name("obj"));
    assert_eq!(Some(OutputKind::DebugSymbols), OutputKind::from_name("pdb"));
    assert_eq!(None, OutputKind::from_name("exe"));
    assert_eq!(None, OutputKind::from_name("ob"));
}

#[test]
fn outputs_hold_one_path_of_each_kind() {
    let mut outputs = Outputs::new();
    assert_eq!(0, outputs.len());
    assert_eq!(None, outputs.get(OutputKind::Object));
    outputs.insert(OutputKind::DebugSymbols, "a.pdb".to_string());
    assert_eq!(1, outputs.len());
    outputs.insert(OutputKind::Object, "a.obj".to_string());
    outputs.insert(OutputKind::Object, "b.obj".to_string());
    assert_eq!(2, outputs.len());
    assert_eq!(Some(&"b.obj".to_string()), outputs.get(OutputKind::Object));
    assert_eq!(Some(&"a.pdb".to_string()), outputs.get(OutputKind::DebugSymbols));
}
