use jimc::runtime_filter::filter_runtime;

const RT: &str = "head\n#ifdef JIM_RT_INT\nint_code\n#endif\n#ifndef JIM_PANIC_ABORT\n  #include <setjmp.h>\n#endif\n#ifdef OTHER\nother\n#endif\ntail";

#[test]
fn wanted_blocks_are_kept() {
    let out = filter_runtime(RT, false, &vec!["INT".to_string()]);
    assert_eq!(out, "head\nint_code\n  #include <setjmp.h>\nother\ntail\n");
}

#[test]
fn unwanted_blocks_and_setjmp_under_abort_are_dropped() {
    let out = filter_runtime(RT, true, &vec![]);
    assert_eq!(out, "head\nother\ntail\n");
}

#[test]
fn nested_blocks_need_every_condition() {
    let src = "#ifdef JIM_RT_A\na\n#ifdef JIM_RT_B\nab\n#endif\n#endif\nz\n";
    assert_eq!(filter_runtime(src, false, &vec!["B".to_string()]), "z\n");
    assert_eq!(filter_runtime(src, false, &vec!["A".to_string()]), "a\nz\n");
    assert_eq!(filter_runtime(src, false, &vec!["A".to_string(), "B".to_string()]), "a\nab\nz\n");
}

#[test]
fn filtered_output_holds_no_conditionals() {
    for pa in [false, true] {
        for blocks in [vec![], vec!["INT".to_string()], vec!["INT".to_string(), "PANIC".to_string()]] {
            let out = filter_runtime(RT, pa, &blocks);
            for line in out.lines() {
                let t = line.trim_start();
                assert!(!t.starts_with("#ifdef ") && !t.starts_with("#ifndef ") && !t.starts_with("#endif"));
                assert!(RT.lines().any(|l| l == line));
            }
            assert!(out.ends_with('\n'));
        }
    }
}
