use ade_core::permission::{AlwaysAllow, AlwaysDeny, ApprovalRequest, Decision, PermissionGate};

fn req(tool: &str, mutating: bool, summary: &str) -> ApprovalRequest {
    ApprovalRequest { tool: tool.into(), mutating, summary: summary.into() }
}

#[test]
fn read_always_allowed() {
    let gate = PermissionGate::new(vec![], Box::new(AlwaysDeny));
    assert_eq!(gate.check(&req("read_file", false, "a.txt")), Decision::Allow);
}

#[test]
fn allowlist_matches_prefix() {
    let gate = PermissionGate::new(vec!["cargo build".into()], Box::new(AlwaysDeny));
    assert_eq!(
        gate.check(&req("run_shell", true, "cargo build --release")),
        Decision::Allow
    );
    assert_eq!(gate.check(&req("run_shell", true, "rm -rf /")), Decision::Deny);
}

#[test]
fn delegates_to_approver() {
    let gate = PermissionGate::new(vec![], Box::new(AlwaysAllow));
    assert_eq!(gate.check(&req("write_file", true, "x")), Decision::Allow);
}
