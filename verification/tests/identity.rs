use async_log::identity::thread_id;

#[test]
fn thread_id_reads_the_number() {
    assert_eq!(thread_id("ThreadId(1)"), Some(1));
    assert_eq!(thread_id("ThreadId(42)"), Some(42));
    assert_eq!(thread_id("ThreadId(18446744073709551615)"), Some(u64::MAX));
}

#[test]
fn thread_id_is_the_same_for_the_same_text() {
    assert_eq!(thread_id("ThreadId(8)"), thread_id("ThreadId(8)"));
}

#[test]
fn thread_id_differs_for_different_threads() {
    assert_ne!(thread_id("ThreadId(8)"), thread_id("ThreadId(9)"));
}

#[test]
fn thread_id_refuses_another_shape() {
    assert_eq!(thread_id(""), None);
    assert_eq!(thread_id("ThreadId()"), None);
    assert_eq!(thread_id("ThreadId(7"), None);
    assert_eq!(thread_id("ThreadId(7))"), None);
    assert_eq!(thread_id("threadid(7)"), None);
    assert_eq!(thread_id("ThreadId(7a)"), None);
    assert_eq!(thread_id("ThreadId(-7)"), None);
    assert_eq!(thread_id("7"), None);
    assert_eq!(thread_id(" ThreadId(7)"), None);
}

#[test]
fn thread_id_refuses_a_number_that_does_not_fit() {
    assert_eq!(thread_id("ThreadId(18446744073709551616)"), None);
}
