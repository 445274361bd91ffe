use std::collections::HashSet;
use std::sync::Arc;
use tkach::{AllowAll, AllowList, IntersectPolicy, ScopedPolicy, ToolPolicy};

fn list(names: &[&str]) -> AllowList {
    AllowList::new(names.iter().map(|n| n.to_string()).collect())
}

/// Denies tools by name.
struct DenyNamed(HashSet<String>);

impl ToolPolicy for DenyNamed {
    fn is_allowed(&self, name: &str) -> bool {
        !self.0.contains(name)
    }
}

#[test]
fn allow_list_only_allows_named_tools() {
    let policy = list(&["read", "grep"]);
    assert!(policy.is_allowed("read"));
    assert!(!policy.is_allowed("write"));
}

#[test]
fn allow_list_empty_denies_everything() {
    let policy = AllowList::new(Vec::new());
    assert!(!policy.is_allowed("read"));
    assert!(!policy.is_allowed(""));
}

#[test]
fn intersect_policy_is_deny_monotonic() {
    let parent: Arc<dyn ToolPolicy> = Arc::new(list(&["read", "write"]));
    let child: Arc<dyn ToolPolicy> = Arc::new(list(&["read", "grep"]));
    let policy = IntersectPolicy { left: parent, right: child };
    assert!(policy.is_allowed("read"));
    assert!(!policy.is_allowed("write"));
    assert!(!policy.is_allowed("grep"));
}

#[test]
fn intersect_with_allow_all_reduces_to_other_side() {
    let parent: Arc<dyn ToolPolicy> = Arc::new(AllowAll);
    let child: Arc<dyn ToolPolicy> = Arc::new(list(&["read"]));
    let policy = IntersectPolicy { left: parent, right: child };
    assert!(policy.is_allowed("read"));
    assert!(!policy.is_allowed("write"));
    assert!(!policy.is_allowed("anything-else"));
}

#[test]
fn intersect_with_deny_named_subtracts_from_allow_list() {
    let parent: Arc<dyn ToolPolicy> = Arc::new(list(&["read", "write", "bash"]));
    let denied: HashSet<String> = ["bash".to_string()].into_iter().collect();
    let child: Arc<dyn ToolPolicy> = Arc::new(DenyNamed(denied));
    let policy = IntersectPolicy { left: parent, right: child };
    assert!(policy.is_allowed("read"));
    assert!(policy.is_allowed("write"));
    assert!(!policy.is_allowed("bash"));
    assert!(!policy.is_allowed("grep"));
}

#[test]
fn scopes_only_take_away() {
    let base: Arc<dyn ToolPolicy> = Arc::new(list(&["read", "write", "bash"]));
    let outer = ScopedPolicy::new(base);
    assert!(outer.is_allowed("bash"));
    let inner = outer.narrowed(list(&["read", "bash", "grep"]));
    assert!(inner.is_allowed("read"));
    assert!(inner.is_allowed("bash"));
    assert!(!inner.is_allowed("write"));
    assert!(!inner.is_allowed("grep"));
    let innermost = inner.narrowed(list(&["write", "read"]));
    assert!(innermost.is_allowed("read"));
    assert!(!innermost.is_allowed("write"));
    assert!(!innermost.is_allowed("bash"));
}
