use envbro::manifest::{EnvEntry, EnvSlot, Manifest, ProjectEnvs};

fn entry_hash(m: &Manifest, p: &str, e: &str) -> Option<String> {
    m.get_hash(p, e)
}

#[test]
fn put_then_get() {
    let mut m = Manifest::new();
    assert_eq!(m.put_entry("myproject", "prod", ".env", "h1"), None);
    let entry = m.get_entry("myproject", "prod").unwrap();
    assert_eq!(entry.filename, ".env");
    assert_eq!(entry.hash, "h1");
    assert!(m.get_entry("myproject", "dev").is_none());
    assert!(m.get_entry("other", "prod").is_none());
}

#[test]
fn replacing_with_new_hash_prunes_old_blob() {
    let mut m = Manifest::new();
    m.put_entry("p", "dev", ".env", "h1");
    assert_eq!(m.put_entry("p", "dev", ".env", "h2"), Some("h1".to_string()));
    assert_eq!(entry_hash(&m, "p", "dev"), Some("h2".to_string()));
}

#[test]
fn replacing_with_same_hash_prunes_nothing() {
    let mut m = Manifest::new();
    m.put_entry("p", "dev", ".env", "h1");
    assert_eq!(m.put_entry("p", "dev", "other.env", "h1"), None);
    assert_eq!(m.get_entry("p", "dev").unwrap().filename, "other.env");
}

#[test]
fn shared_blob_is_not_pruned() {
    let mut m = Manifest::new();
    m.put_entry("p", "dev", ".env", "h1");
    m.put_entry("q", "prod", ".env", "h1");
    assert_eq!(m.put_entry("p", "dev", ".env", "h2"), None);
    assert!(m.is_hash_used("h1"));
    assert!(m.is_hash_used("h2"));
    assert!(!m.is_hash_used("h3"));
}

#[test]
fn delete_returns_orphaned_hash() {
    let mut m = Manifest::new();
    m.put_entry("p", "dev", ".env", "h1");
    m.put_entry("p", "prod", ".env", "h2");
    assert_eq!(m.delete_entry("p", "dev"), Some("h1".to_string()));
    assert!(m.get_entry("p", "dev").is_none());
    assert_eq!(entry_hash(&m, "p", "prod"), Some("h2".to_string()));
}

#[test]
fn delete_keeps_shared_blob() {
    let mut m = Manifest::new();
    m.put_entry("p", "dev", ".env", "h1");
    m.put_entry("p", "prod", ".env", "h1");
    assert_eq!(m.delete_entry("p", "dev"), None);
    assert!(m.is_hash_used("h1"));
}

#[test]
fn delete_missing_changes_nothing() {
    let mut m = Manifest::new();
    m.put_entry("p", "dev", ".env", "h1");
    assert_eq!(m.delete_entry("p", "prod"), None);
    assert_eq!(m.delete_entry("q", "dev"), None);
    assert_eq!(m.project_names(), vec!["p".to_string()]);
    assert_eq!(m.env_names("p"), vec!["dev".to_string()]);
}

#[test]
fn removing_last_env_removes_project() {
    let mut m = Manifest::new();
    m.put_entry("p", "dev", ".env", "h1");
    m.remove_entry("p", "dev");
    assert!(m.project_names().is_empty());
    assert!(m.env_names("p").is_empty());
    assert!(!m.is_hash_used("h1"));
}

#[test]
fn removing_one_env_keeps_project() {
    let mut m = Manifest::new();
    m.put_entry("p", "dev", ".env", "h1");
    m.put_entry("p", "prod", ".env", "h2");
    m.remove_entry("p", "dev");
    assert_eq!(m.project_names(), vec!["p".to_string()]);
    assert_eq!(m.env_names("p"), vec!["prod".to_string()]);
}

#[test]
fn names_are_listed_once() {
    let mut m = Manifest::new();
    m.put_entry("a", "dev", ".env", "h1");
    m.put_entry("b", "dev", ".env", "h2");
    m.put_entry("a", "prod", ".env", "h3");
    m.put_entry("a", "dev", ".env", "h4");
    let mut projects = m.project_names();
    projects.sort();
    assert_eq!(projects, vec!["a".to_string(), "b".to_string()]);
    let mut envs = m.env_names("a");
    envs.sort();
    assert_eq!(envs, vec!["dev".to_string(), "prod".to_string()]);
    assert!(m.env_names("c").is_empty());
}

fn slot(name: &str, hash: &str) -> EnvSlot {
    EnvSlot {
        name: name.to_string(),
        entry: EnvEntry { filename: ".env".to_string(), hash: hash.to_string() },
    }
}

#[test]
fn from_projects_accepts_distinct_names() {
    let parts = vec![
        ProjectEnvs { name: "a".to_string(), envs: vec![slot("dev", "h1"), slot("prod", "h2")] },
        ProjectEnvs { name: "b".to_string(), envs: vec![] },
    ];
    let m = Manifest::from_projects(parts).unwrap();
    assert_eq!(m.get_hash("a", "prod"), Some("h2".to_string()));
    assert_eq!(m.projects().len(), 2);
    assert!(m.env_names("b").is_empty());
}

#[test]
fn from_projects_rejects_duplicate_projects() {
    let parts = vec![
        ProjectEnvs { name: "a".to_string(), envs: vec![] },
        ProjectEnvs { name: "a".to_string(), envs: vec![] },
    ];
    assert!(Manifest::from_projects(parts).is_none());
}

#[test]
fn from_projects_rejects_duplicate_envs() {
    let parts = vec![ProjectEnvs {
        name: "a".to_string(),
        envs: vec![slot("dev", "h1"), slot("dev", "h2")],
    }];
    assert!(Manifest::from_projects(parts).is_none());
}

#[test]
fn delete_after_put_restores_lookups() {
    let mut m = Manifest::new();
    m.put_entry("p", "dev", ".env", "h1");
    m.put_entry("q", "dev", ".env", "h2");
    assert_eq!(m.delete_entry("q", "dev"), Some("h2".to_string()));
    assert_eq!(m.project_names(), vec!["p".to_string()]);
    assert_eq!(entry_hash(&m, "p", "dev"), Some("h1".to_string()));
}
