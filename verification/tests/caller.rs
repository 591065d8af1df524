use async_log::caller::{
    async_log_capture_caller, is_sentinel, resolve_caller, CallerWalk, Symbol,
};

fn symbol(name: &str, line: u32) -> Symbol {
    Symbol { name: Some(name.to_string()), lineno: Some(line), filename: Some("src/x.rs".to_string()) }
}

fn unnamed() -> Symbol {
    Symbol { name: None, lineno: None, filename: None }
}

fn stack() -> Vec<Symbol> {
    vec![
        symbol("backtrace::trace", 1),
        unnamed(),
        symbol("async_log::caller::walk_stack", 2),
        symbol("async_log::caller::async_log_capture_caller", 3),
        symbol("async_log::logger::Logger::log", 4),
        unnamed(),
        symbol("log::__private_api::log", 5),
        symbol("trace::main", 6),
    ]
}

fn name_at(symbols: &Vec<Symbol>, depth: u8) -> Option<String> {
    resolve_caller(symbols, depth).and_then(|symbol| symbol.name)
}

#[test]
fn is_sentinel_takes_the_bare_name() {
    assert!(is_sentinel("async_log_capture_caller"));
}

#[test]
fn is_sentinel_takes_the_name_as_last_segment_of_a_path() {
    assert!(is_sentinel("async_log::caller::async_log_capture_caller"));
    assert!(is_sentinel("::async_log_capture_caller"));
}

#[test]
fn is_sentinel_refuses_other_names() {
    assert!(!is_sentinel(""));
    assert!(!is_sentinel("async_log_capture_calle"));
    assert!(!is_sentinel("my_async_log_capture_caller"));
    assert!(!is_sentinel(":async_log_capture_caller"));
    assert!(!is_sentinel("a:async_log_capture_caller"));
    assert!(!is_sentinel("async_log_capture_caller::inner"));
    assert!(!is_sentinel("async_log::caller::async_log_capture_caller::h0123456789abcdef"));
    assert!(!is_sentinel("ASYNC_LOG_CAPTURE_CALLER"));
}

#[test]
fn resolve_caller_finds_the_sentinel_at_depth_zero() {
    assert_eq!(
        name_at(&stack(), 0),
        Some("async_log::caller::async_log_capture_caller".to_string())
    );
}

#[test]
fn resolve_caller_counts_every_symbol_past_the_sentinel() {
    assert_eq!(name_at(&stack(), 1), Some("async_log::logger::Logger::log".to_string()));
    assert_eq!(resolve_caller(&stack(), 2), Some(unnamed()));
    assert_eq!(name_at(&stack(), 3), Some("log::__private_api::log".to_string()));
    assert_eq!(name_at(&stack(), 4), Some("trace::main".to_string()));
}

#[test]
fn resolve_caller_hands_out_a_symbol_without_a_name() {
    let symbols = vec![
        symbol("async_log_capture_caller", 1),
        Symbol { name: None, lineno: Some(7), filename: Some("src/y.rs".to_string()) },
        symbol("x", 3),
    ];
    assert_eq!(
        resolve_caller(&symbols, 1),
        Some(Symbol { name: None, lineno: Some(7), filename: Some("src/y.rs".to_string()) })
    );
    assert_eq!(name_at(&symbols, 2), Some("x".to_string()));
    assert_eq!(resolve_caller(&symbols[..2].to_vec(), 1), Some(symbols[1].clone()));
    assert_eq!(resolve_caller(&symbols[..2].to_vec(), 2), None);
}

#[test]
fn resolve_caller_does_not_take_a_symbol_without_a_name_for_the_sentinel() {
    let symbols = vec![unnamed(), unnamed(), symbol("async_log_capture_caller", 3), unnamed()];
    assert_eq!(resolve_caller(&symbols, 0).unwrap().lineno, Some(3));
    assert_eq!(resolve_caller(&symbols, 1), Some(unnamed()));
    assert_eq!(resolve_caller(&symbols, 2), None);
    assert_eq!(resolve_caller(&vec![unnamed(), unnamed()], 0), None);
}

#[test]
fn resolve_caller_hands_out_the_whole_symbol() {
    let found = resolve_caller(&stack(), 4).unwrap();
    assert_eq!(found.name, Some("trace::main".to_string()));
    assert_eq!(found.lineno, Some(6));
    assert_eq!(found.filename, Some("src/x.rs".to_string()));
}

#[test]
fn resolve_caller_finds_nothing_past_the_top_of_the_stack() {
    assert!(resolve_caller(&stack(), 5).is_none());
    assert!(resolve_caller(&stack(), 255).is_none());
}

#[test]
fn resolve_caller_finds_nothing_without_the_sentinel() {
    let symbols = vec![symbol("a", 1), symbol("b", 2), symbol("c", 3)];
    assert!(resolve_caller(&symbols, 0).is_none());
    assert!(resolve_caller(&symbols, 1).is_none());
    assert!(resolve_caller(&Vec::new(), 0).is_none());
}

#[test]
fn resolve_caller_counts_from_the_first_sentinel() {
    let symbols = vec![
        symbol("x", 1),
        symbol("async_log_capture_caller", 2),
        symbol("async_log_capture_caller", 3),
        symbol("y", 4),
    ];
    assert_eq!(resolve_caller(&symbols, 0).unwrap().lineno, Some(2));
    assert_eq!(resolve_caller(&symbols, 1).unwrap().lineno, Some(3));
    assert_eq!(resolve_caller(&symbols, 2).unwrap().lineno, Some(4));
    assert!(resolve_caller(&symbols, 3).is_none());
}

#[test]
fn resolve_caller_keeps_missing_parts_missing() {
    let symbols = vec![
        symbol("async_log_capture_caller", 2),
        Symbol { name: Some("stripped".to_string()), lineno: None, filename: None },
    ];
    let found = resolve_caller(&symbols, 1).unwrap();
    assert_eq!(found.name, Some("stripped".to_string()));
    assert_eq!(found.lineno, None);
    assert_eq!(found.filename, None);
}

#[test]
fn caller_walk_stops_asking_once_it_has_found() {
    let mut walk = CallerWalk::new(1);
    assert!(walk.wants_more());
    walk.observe(symbol("outside", 1));
    assert!(walk.wants_more());
    walk.observe(symbol("async_log_capture_caller", 2));
    assert!(walk.wants_more());
    walk.observe(symbol("caller", 3));
    assert!(!walk.wants_more());
    walk.observe(symbol("later", 4));
    assert!(!walk.wants_more());
    assert_eq!(walk.finish().unwrap().name, Some("caller".to_string()));
}

#[test]
fn caller_walk_at_depth_zero_stops_at_the_sentinel() {
    let mut walk = CallerWalk::new(0);
    assert!(walk.wants_more());
    walk.observe(symbol("outside", 1));
    assert!(walk.wants_more());
    walk.observe(symbol("a::async_log_capture_caller", 2));
    assert!(!walk.wants_more());
    assert_eq!(walk.finish().unwrap().lineno, Some(2));
}

#[test]
fn caller_walk_that_saw_nothing_found_nothing() {
    assert!(CallerWalk::new(0).finish().is_none());
    assert!(CallerWalk::new(3).finish().is_none());
}

#[test]
fn symbol_duplicate_is_equal() {
    let one = symbol("f", 9);
    let two = one.duplicate();
    assert_eq!(one.name, two.name);
    assert_eq!(one.lineno, two.lineno);
    assert_eq!(one.filename, two.filename);
}

#[test]
fn capture_caller_finds_nothing_past_the_top_of_the_stack() {
    assert!(async_log_capture_caller(255).is_none());
}

#[test]
fn capture_caller_finds_itself_on_the_real_stack() {
    let found = async_log_capture_caller(0).expect("the resolver is on its own stack");
    let name = found.name.expect("a call site has a name");
    assert!(is_sentinel(&name), "unexpected call site: {}", name);
}
#[test]
fn capture_caller_finds_a_frame_above_itself_on_the_real_stack() {
    let found = async_log_capture_caller(1).expect("the caller is on the stack");
    if let Some(name) = found.name {
        assert!(!is_sentinel(&name), "unexpected call site: {}", name);
    }
}
