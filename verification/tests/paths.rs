use tokio_console_web::addr::{decimal, ConsoleAddr};
use tokio_console_web::path::truncate_registry_path;

#[test]
fn registry_path_is_rewritten() {
    let path = "/home/user/.cargo/registry/src/github.com-1ecc6299db9ec823/tokio-1.17.0/src/task/spawn.rs";
    assert_eq!(
        truncate_registry_path(path.to_string()),
        "{cargo}/tokio-1.17.0/src/task/spawn.rs"
    );
}

#[test]
fn git_checkout_path_is_rewritten() {
    let path = "/root/.cargo/git/checkouts/console-7f2a3a4e8b5c9d10/abc1234/console-subscriber/src/lib.rs";
    assert_eq!(
        truncate_registry_path(path.to_string()),
        "{cargo}/console-7f2a3a4e8b5c9d10/abc1234/console-subscriber/src/lib.rs"
    );
}

#[test]
fn other_path_is_kept() {
    assert_eq!(truncate_registry_path("src/x.rs".to_string()), "src/x.rs");
}

#[test]
fn decimal_numerals() {
    assert_eq!(decimal(0), "0");
    assert_eq!(decimal(7), "7");
    assert_eq!(decimal(10), "10");
    assert_eq!(decimal(1234567890), "1234567890");
    assert_eq!(decimal(u64::MAX), "18446744073709551615");
}

#[test]
fn page_paths() {
    let addr = ConsoleAddr { ip: "127.0.0.1".to_string(), port: "6669".to_string() };
    assert_eq!(addr.to_text(), "127.0.0.1:6669");
    assert_eq!(addr.tasks_path(), "/console/127.0.0.1/6669/tasks");
    assert_eq!(addr.resources_path(), "/console/127.0.0.1/6669/resources");
    assert_eq!(addr.task_path(42), "/console/127.0.0.1/6669/tasks/42");
    assert_eq!(addr.resource_path(7), "/console/127.0.0.1/6669/resources/7");
    assert_eq!(addr.form_path(), "/?ip=127.0.0.1&port=6669");
    assert_eq!(ConsoleAddr::default(), addr);
}
