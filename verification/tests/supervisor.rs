//! The supervisor state machine on concrete handles, and the worker's
//! launch parameters.

use litefetch_supervisor::supervisor::{worker_args, worker_env, Supervisor};
use litefetch_supervisor::urls::{base_url_for, decimal_string};

/// One start operation as the application performs it under the lock:
/// return the cached URL if one exists, otherwise spawn (here: mint the
/// next fake handle) and install the outcome.
fn start_once(sup: &mut Supervisor<u64>, next_handle: u64, fresh_port: u16, spawns: &mut u32) -> String {
    if let Some(url) = sup.cached_url() {
        url
    } else {
        *spawns += 1;
        sup.install(next_handle, fresh_port)
    }
}

#[test]
fn start_is_idempotent_and_spawns_once() {
    let mut sup: Supervisor<u64> = Supervisor::new();
    let mut spawns: u32 = 0;
    let u1 = start_once(&mut sup, 1, 4000, &mut spawns);
    let u2 = start_once(&mut sup, 2, 5000, &mut spawns);
    let u3 = start_once(&mut sup, 3, 6000, &mut spawns);
    assert_eq!(spawns, 1);
    assert_eq!(u1, "http://127.0.0.1:4000/api");
    assert_eq!(u2, u1);
    assert_eq!(u3, u1);
}

#[test]
fn cold_supervisor_has_no_cached_url() {
    let sup: Supervisor<u64> = Supervisor::new();
    assert_eq!(sup.cached_url(), None);
}

#[test]
fn install_caches_the_url_derived_from_the_port() {
    let mut sup: Supervisor<u64> = Supervisor::new();
    let url = sup.install(42, 8080);
    assert_eq!(url, "http://127.0.0.1:8080/api");
    assert_eq!(sup.cached_url(), Some("http://127.0.0.1:8080/api".to_string()));
}

#[test]
fn take_surrenders_the_handle_and_clears_the_cache() {
    let mut sup: Supervisor<u64> = Supervisor::new();
    sup.install(42, 8080);
    assert_eq!(sup.take(), Some(42));
    assert_eq!(sup.cached_url(), None);
}

#[test]
fn stop_with_no_worker_is_a_no_op() {
    let mut sup: Supervisor<u64> = Supervisor::new();
    assert_eq!(sup.take(), None);
    assert_eq!(sup.cached_url(), None);
    sup.install(7, 9000);
    sup.take();
    assert_eq!(sup.take(), None);
}

#[test]
fn switch_kills_the_old_worker_before_the_new_url_exists() {
    let mut sup: Supervisor<u64> = Supervisor::new();
    let old_url = sup.install(1, 4100);
    // A switch stops first: the old handle is surrendered for termination
    // while no URL is cached ...
    let killed = sup.take();
    assert_eq!(killed, Some(1));
    assert_eq!(sup.cached_url(), None);
    // ... and only then the new worker is installed.
    let new_url = sup.install(2, 4200);
    assert_eq!(new_url, "http://127.0.0.1:4200/api");
    assert_ne!(new_url, old_url);
    assert_eq!(sup.cached_url(), Some(new_url));
}

#[test]
fn base_urls_of_distinct_ports_differ() {
    assert_eq!(base_url_for(0), "http://127.0.0.1:0/api");
    assert_eq!(base_url_for(65535), "http://127.0.0.1:65535/api");
    assert_ne!(base_url_for(8080), base_url_for(8081));
}

#[test]
fn decimal_rendering_has_no_leading_zeros() {
    assert_eq!(decimal_string(0), "0");
    assert_eq!(decimal_string(7), "7");
    assert_eq!(decimal_string(1024), "1024");
    assert_eq!(decimal_string(65535), "65535");
}

#[test]
fn worker_launch_arguments_carry_host_port_and_workspace() {
    let args = worker_args(8080, "/home/u/ws");
    assert_eq!(
        args,
        vec!["--host", "127.0.0.1", "--port", "8080", "--dir", "/home/u/ws"]
    );
}

#[test]
fn worker_environment_is_the_redundant_channel() {
    let env = worker_env(8080, "/home/u/ws");
    assert_eq!(env.len(), 2);
    assert_eq!(env[0], ("PORT".to_string(), "8080".to_string()));
    assert_eq!(env[1], ("LITEFETCH_WORKSPACE".to_string(), "/home/u/ws".to_string()));
}
