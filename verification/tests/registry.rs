use b3_local::registry::ops::{
    group_add, group_create, group_remove, register_project, sort_projects, unregister_project,
    unregistered_message,
};
use b3_local::registry::report::{group_list, group_status, list_projects, project_status};
use b3_local::registry::{
    same_path_text, slugify, validate_registry_id, GroupCreateOptions, GroupMembershipOptions,
    PathFacts, RegisterOptions, Registry, RegistryProject, REGISTRY_VERSION,
};

fn register_options(path: &str, id: Option<&str>, name: Option<&str>) -> RegisterOptions {
    RegisterOptions {
        project_path: path.to_string(),
        id: id.map(str::to_string),
        name: name.map(str::to_string),
        database_path: None,
        tags: Vec::new(),
        notes: None,
        update: false,
        registry_path: "/home/u/.b3/registry.json".to_string(),
    }
}

fn facts(n: usize) -> Vec<PathFacts> {
    vec![
        PathFacts {
            path_exists: true,
            database_exists: true,
            b3_dir_exists: true,
        };
        n
    ]
}

#[test]
fn empty_registry_has_version_and_no_entries() {
    let registry = Registry::empty();
    assert_eq!(registry.version, REGISTRY_VERSION);
    assert!(registry.projects.is_empty());
    assert!(registry.groups.is_empty());
    assert_eq!(registry.created_at, registry.updated_at);
    assert!(registry.created_at.chars().all(|c| c.is_ascii_digit()));
    let at = Registry::empty_at("17");
    assert_eq!(at.created_at, "17");
}

#[test]
fn slugs_and_ids() {
    assert_eq!(slugify("Backend API"), "backend-api");
    assert_eq!(slugify("  --Hello__World!!  "), "hello-world");
    assert_eq!(slugify("***"), "project");
    assert!(validate_registry_id("backend-api").is_ok());
    assert_eq!(validate_registry_id(" ").unwrap_err(), "id must not be empty");
    assert!(validate_registry_id("Backend").unwrap_err().contains("lowercase"));
    assert!(same_path_text("/A/b", "/a/B"));
    assert!(!same_path_text("/a/b", "/a/bc"));
}

#[test]
fn register_project_creates_entry_and_status_checks_paths() {
    let mut options = register_options("/tmp/x/Backend API", None, Some("Backend API"));
    options.database_path = Some("/tmp/x/Backend API/.b3/b3.db".to_string());
    options.tags = vec!["api".to_string(), "backend".to_string()];
    let (registry, output) =
        register_project(Registry::empty_at("1"), &options, true, "/cwd", "5").expect("register");
    assert!(output.contains("registered project: backend-api"));
    assert!(output.contains("install next step:\n  b3 install --agent codex --project \"/tmp/x/Backend API\""));
    let status = project_status(&registry, "backend-api", &facts(1)).expect("status");
    assert!(status.contains("path_exists: true"));
    assert!(status.contains("database_exists: true"));
    assert!(status.contains("api,backend"));
    assert!(status.ends_with("last_indexed_at: unknown"));
    assert_eq!(registry.updated_at, "5");
    assert_eq!(registry.projects[0].created_at, "5");
}

#[test]
fn default_name_and_database_come_from_the_path() {
    let (registry, _) = register_project(
        Registry::empty_at("1"),
        &register_options("apps/My App", None, None),
        true,
        "/work",
        "2",
    )
    .expect("register");
    let project = &registry.projects[0];
    assert_eq!(project.path, "/work/apps/My App");
    assert_eq!(project.name, "My App");
    assert_eq!(project.id, "my-app");
    assert_eq!(project.database, "/work/apps/My App/.b3/b3.db");
}

#[test]
fn duplicate_project_requires_update() {
    let options = register_options("/tmp/app", Some("app"), Some("App"));
    let (registry, _) = register_project(Registry::empty_at("1"), &options, true, "/", "2").expect("first");
    let error = register_project(registry.clone(), &options, true, "/", "3").expect_err("duplicate");
    assert!(error.contains("--update"));
    let mut update = options.clone();
    update.update = true;
    update.notes = Some("kept".to_string());
    let (updated, _) = register_project(registry, &update, true, "/", "4").expect("update");
    assert_eq!(updated.projects.len(), 1);
    assert_eq!(updated.projects[0].created_at, "2");
    assert_eq!(updated.projects[0].updated_at, "4");
    assert_eq!(updated.projects[0].notes.as_deref(), Some("kept"));
}

#[test]
fn projects_are_kept_in_id_order() {
    let mut registry = Registry::empty_at("0");
    for (path, id) in [("/z", "zeta"), ("/a", "alpha"), ("/m", "mid")] {
        let (next, _) = register_project(registry, &register_options(path, Some(id), None), true, "/", "1")
            .expect("register");
        registry = next;
    }
    let ids: Vec<&str> = registry.projects.iter().map(|p| p.id.as_str()).collect();
    assert_eq!(ids, vec!["alpha", "mid", "zeta"]);
    let sorted = sort_projects(&registry.projects);
    assert_eq!(sorted, registry.projects);
}

#[test]
fn sorting_keeps_equal_ids_in_order() {
    let project = |id: &str, name: &str| RegistryProject {
        id: id.to_string(),
        name: name.to_string(),
        path: String::new(),
        database: String::new(),
        tags: Vec::new(),
        created_at: String::new(),
        updated_at: String::new(),
        last_indexed_at: None,
        notes: None,
    };
    let sorted = sort_projects(&vec![project("b", "1"), project("a", "2"), project("b", "3")]);
    let names: Vec<&str> = sorted.iter().map(|p| p.name.as_str()).collect();
    assert_eq!(names, vec!["2", "1", "3"]);
}

#[test]
fn unregister_dry_run_and_apply() {
    let (registry, _) = register_project(
        Registry::empty_at("1"),
        &register_options("/tmp/app", Some("app"), Some("App")),
        true,
        "/",
        "2",
    )
    .expect("register");
    let (registry, _) = group_create(
        registry,
        &GroupCreateOptions {
            name: "Team".to_string(),
            id: None,
            description: String::new(),
            tags: Vec::new(),
            registry_path: "r.json".to_string(),
        },
        "3",
    )
    .expect("group");
    let (registry, _) = group_add(
        registry,
        &GroupMembershipOptions {
            group_id: "team".to_string(),
            project_id: "app".to_string(),
            registry_path: "r.json".to_string(),
        },
        "4",
    )
    .expect("add");
    let (same, message) = unregister_project(registry.clone(), "app", false, "5").expect("dry");
    assert_eq!(same, registry);
    assert!(message.unwrap().contains("dry-run"));
    let (after, message) = unregister_project(registry, "app", true, "6").expect("apply");
    assert!(message.is_none());
    assert!(after.projects.is_empty());
    assert!(after.groups[0].project_ids.is_empty());
    assert_eq!(after.groups[0].updated_at, "6");
    assert!(project_status(&after, "app", &facts(0)).is_err());
    let missing = unregister_project(after, "app", true, "7").expect_err("missing");
    assert_eq!(missing, "project not found: app");
    assert_eq!(
        unregistered_message("app", Some("/r.json.b3-backup-1")),
        "unregistered project: app\nmode: applied\nbackup: /r.json.b3-backup-1"
    );
    assert!(unregistered_message("app", None).ends_with("backup: none"));
}

#[test]
fn project_list_output_includes_registered_project() {
    let mut options = register_options("/tmp/app", Some("app"), Some("App"));
    options.tags = vec!["rust".to_string()];
    let (registry, _) = register_project(Registry::empty_at("1"), &options, true, "/", "2").expect("register");
    let list = list_projects(&registry, "/r.json", &facts(1));
    assert!(list.contains("app | App"));
    assert!(list.contains("tags=rust"));
    assert_eq!(
        list_projects(&Registry::empty_at("1"), "/r.json", &Vec::new()),
        "registry: /r.json\nprojects: none"
    );
}

#[test]
fn group_create_add_remove_list_and_status() {
    let (registry, _) = register_project(
        Registry::empty_at("1"),
        &register_options("/tmp/frontend", Some("frontend-app"), Some("Frontend App")),
        true,
        "/",
        "2",
    )
    .expect("register");
    let (registry, created) = group_create(
        registry,
        &GroupCreateOptions {
            name: "Business Application".to_string(),
            id: Some("business-app".to_string()),
            description: "metadata only".to_string(),
            tags: vec!["workspace".to_string()],
            registry_path: "/r.json".to_string(),
        },
        "3",
    )
    .expect("group");
    assert_eq!(created, "created group: business-app\nregistry: /r.json");
    let membership = GroupMembershipOptions {
        group_id: "business-app".to_string(),
        project_id: "frontend-app".to_string(),
        registry_path: "/r.json".to_string(),
    };
    let (registry, added) = group_add(registry, &membership, "4").expect("add");
    assert_eq!(added, "added project frontend-app to group business-app");
    let (registry, _) = group_add(registry, &membership, "5").expect("add again");
    assert_eq!(registry.groups[0].project_ids.len(), 1);
    assert_eq!(registry.groups[0].updated_at, "4");

    let list = group_list(&registry, "/r.json");
    let status = group_status(&registry, "business-app", &facts(1)).expect("status");
    assert!(list.contains("business-app | Business Application | projects=1"));
    assert!(status.contains("frontend-app | Frontend App"));

    let (registry, removed) = group_remove(registry, &membership, "6").expect("remove");
    assert_eq!(removed, "removed project frontend-app from group business-app");
    let status = group_status(&registry, "business-app", &facts(1)).expect("status");
    assert!(!status.contains("frontend-app | Frontend App"));
    assert!(group_status(&registry, "nope", &facts(1)).is_err());
}

#[test]
fn group_add_requires_project_exists() {
    let (registry, _) = group_create(
        Registry::empty_at("1"),
        &GroupCreateOptions {
            name: "Group".to_string(),
            id: Some("group".to_string()),
            description: String::new(),
            tags: Vec::new(),
            registry_path: "/r.json".to_string(),
        },
        "2",
    )
    .expect("group");
    let error = group_add(
        registry.clone(),
        &GroupMembershipOptions {
            group_id: "group".to_string(),
            project_id: "missing".to_string(),
            registry_path: "/r.json".to_string(),
        },
        "3",
    )
    .expect_err("missing project");
    assert!(error.contains("project not found"));
    let duplicate = group_create(
        registry,
        &GroupCreateOptions {
            name: "Group".to_string(),
            id: None,
            description: String::new(),
            tags: Vec::new(),
            registry_path: "/r.json".to_string(),
        },
        "3",
    )
    .expect_err("duplicate");
    assert_eq!(duplicate, "group already exists: group");
}

#[test]
fn group_status_notes_missing_members() {
    let (registry, _) = register_project(
        Registry::empty_at("1"),
        &register_options("/tmp/a", Some("a"), None),
        true,
        "/",
        "2",
    )
    .expect("register");
    let (mut registry, _) = group_create(
        registry,
        &GroupCreateOptions {
            name: "G".to_string(),
            id: Some("g".to_string()),
            description: "d".to_string(),
            tags: vec!["x".to_string(), "y".to_string()],
            registry_path: "/r.json".to_string(),
        },
        "3",
    )
    .expect("group");
    registry.groups[0].project_ids = vec!["a".to_string(), "gone".to_string()];
    let status = group_status(&registry, "g", &facts(1)).expect("status");
    assert_eq!(
        status,
        "group: g\nname: G\ndescription: d\ntags: x,y\nprojects:\n- a | a | path_exists=true | db_exists=true\n- gone | missing registry project"
    );
}

#[test]
fn adding_a_project_to_a_group_twice_adds_it_once() {
    let registry = Registry::empty_at("1");
    let (registry, _) =
        register_project(registry, &register_options("/w/app", Some("app"), None), true, "/w", "2")
            .expect("register");
    let create = GroupCreateOptions {
        name: "Team".to_string(),
        id: None,
        description: String::new(),
        tags: Vec::new(),
        registry_path: "r.json".to_string(),
    };
    let (registry, _) = group_create(registry, &create, "3").expect("group");
    let member = GroupMembershipOptions {
        group_id: "team".to_string(),
        project_id: "app".to_string(),
        registry_path: "r.json".to_string(),
    };
    let (once, _) = group_add(registry, &member, "4").expect("once");
    let (twice, _) = group_add(once.clone(), &member, "4").expect("twice");

    assert_eq!(once, twice);
    assert_eq!(twice.groups[0].project_ids, vec!["app"]);
}

#[test]
fn unregistering_removes_the_project_from_every_group() {
    let registry = Registry::empty_at("1");
    let (registry, _) =
        register_project(registry, &register_options("/w/app", Some("app"), None), true, "/w", "2")
            .expect("register");
    let (registry, _) =
        register_project(registry, &register_options("/w/web", Some("web"), None), true, "/w", "2")
            .expect("register");
    let create = GroupCreateOptions {
        name: "Team".to_string(),
        id: None,
        description: String::new(),
        tags: Vec::new(),
        registry_path: "r.json".to_string(),
    };
    let (mut registry, _) = group_create(registry, &create, "3").expect("group");
    for project in ["app", "web"] {
        let member = GroupMembershipOptions {
            group_id: "team".to_string(),
            project_id: project.to_string(),
            registry_path: "r.json".to_string(),
        };
        registry = group_add(registry, &member, "4").expect("add").0;
    }
    let (after, report) = unregister_project(registry, "app", true, "5").expect("unregister");

    assert!(report.is_none());
    assert!(after.projects.iter().all(|p| p.id != "app"));
    assert_eq!(after.groups[0].project_ids, vec!["web"]);
}

#[test]
fn registering_a_missing_path_is_refused_first() {
    let options = register_options("/nowhere", Some("Bad Id"), None);
    let error = register_project(Registry::empty_at("1"), &options, false, "/", "2")
        .expect_err("missing");
    assert_eq!(error, "project path does not exist: /nowhere");
}

#[test]
fn slugs_are_valid_ids_and_stable() {
    for name in ["Backend API", "", "--x--", "Ünïcode 2", "a  b"] {
        let slug = slugify(name);
        assert!(validate_registry_id(&slug).is_ok());
        assert_eq!(slugify(&slug), slug);
    }
    assert_eq!(slugify("Backend API"), "backend-api");
    assert_eq!(slugify(""), "project");
}
