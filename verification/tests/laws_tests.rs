use javetas::commands::{plan_add_class, plan_new_project};
use javetas::project::{parse_config, Project};
use javetas::templates::config;
use javetas::update::{check_update, UpdateCheck};

#[test]
fn config_reads_back_what_new_writes() {
    for package in [None, Some("com.ejemplo"), Some("a"), Some("x.y_z.$w")] {
        let text = config(package);
        assert_eq!(
            parse_config(&text, "demo/.javetas"),
            Ok((package.map(|p| p.to_string()), "Main".to_string()))
        );
    }
}

#[test]
fn config_reads_back_any_trimmed_value() {
    for (package, read) in [
        (Some(""), None),
        (Some("not a java package"), Some("not a java package")),
        (Some("a=b"), Some("a=b")),
        (Some("#x"), Some("#x")),
        (Some("ñandú"), Some("ñandú")),
    ] {
        assert_eq!(
            parse_config(&config(package), "p"),
            Ok((read.map(|p: &str| p.to_string()), "Main".to_string()))
        );
    }
}

#[test]
fn new_project_runs_its_makefile_class() {
    for package in [None, Some("com.ejemplo")] {
        let plan = plan_new_project("demo", package, false).unwrap();
        let (pkg, main) = parse_config(&plan.files[1].content, "demo/.javetas").unwrap();
        let project = Project { root: plan.root.clone(), package: pkg, main };
        assert_eq!(project.run_target(None), plan.main_class);
        assert!(plan.files[2].content.contains(&format!("-cp $(OUT) {}\n", plan.main_class)));
        assert_eq!(project.class_dir(false), plan.class_dir);
    }
}

#[test]
fn added_class_lies_in_class_dir_and_runs_qualified() {
    let project = Project {
        root: "demo".to_string(),
        package: Some("com.ejemplo".to_string()),
        main: "Main".to_string(),
    };
    let plan = plan_add_class(&project, "Persona", None, false, false).unwrap();
    assert_eq!(plan.dir, project.class_dir(false));
    assert_eq!(project.full_class("Persona"), "com.ejemplo.Persona");
}

#[test]
fn same_version_is_up_to_date() {
    assert_eq!(check_update("v0.3.1", r#"{"tag_name": "v0.3.1"}"#), Ok(UpdateCheck::UpToDate));
}
