use javetas::commands::{
    check_project_name, plan_add_class, plan_new_project, valid_identifier, valid_package,
};
use javetas::project::Project;
use javetas::templates::{class_java, config, gitignore, interface_java, main_java, makefile, readme};

#[test]
fn identifiers() {
    for ok in ["Persona", "_x", "$y", "a1", "A_b$9"] {
        assert!(valid_identifier(ok), "{ok}");
    }
    for bad in ["", "1a", "a-b", "a.b", "a b", "ñ", "Persona!"] {
        assert!(!valid_identifier(bad), "{bad}");
    }
}

#[test]
fn packages() {
    for ok in ["com", "com.ejemplo", "a.b_c.$d", "x1.y2"] {
        assert!(valid_package(ok), "{ok}");
    }
    for bad in ["", ".", "com.", ".com", "com..x", "com.1x", "com.ej-emplo", "com. x"] {
        assert!(!valid_package(bad), "{bad}");
    }
}

#[test]
fn project_names() {
    assert_eq!(check_project_name("demo"), Ok(()));
    assert_eq!(check_project_name("my-demo.v2"), Ok(()));
    assert_eq!(check_project_name(""), Err("a project name is required".to_string()));
    assert_eq!(check_project_name("a/b"), Err("`a/b` is not a valid project name".to_string()));
    assert_eq!(check_project_name("a\\b"), Err("`a\\b` is not a valid project name".to_string()));
    assert_eq!(check_project_name("a b"), Err("`a b` is not a valid project name".to_string()));
}

#[test]
fn new_project_without_package() {
    let plan = plan_new_project("demo", None, false).unwrap();
    assert_eq!(plan.root, "demo");
    assert_eq!(plan.class_dir, "demo/src");
    assert_eq!(plan.main_class, "Main");
    let files: Vec<(String, String)> =
        plan.files.iter().map(|f| (f.path.clone(), f.content.clone())).collect();
    assert_eq!(
        files,
        vec![
            ("demo/.gitignore".to_string(), gitignore()),
            ("demo/.javetas".to_string(), config(None)),
            ("demo/Makefile".to_string(), makefile("Main")),
            ("demo/README.md".to_string(), readme("demo", "Main")),
            ("demo/src/Main.java".to_string(), main_java(None)),
        ]
    );
}

#[test]
fn new_project_with_package() {
    let plan = plan_new_project("demo", Some("com.ejemplo"), false).unwrap();
    assert_eq!(plan.class_dir, "demo/src/com/ejemplo");
    assert_eq!(plan.main_class, "com.ejemplo.Main");
    assert_eq!(plan.files[1].content, config(Some("com.ejemplo")));
    assert_eq!(plan.files[2].content, makefile("com.ejemplo.Main"));
    assert_eq!(plan.files[3].content, readme("demo", "com.ejemplo.Main"));
    assert_eq!(plan.files[4].path, "demo/src/com/ejemplo/Main.java");
    assert_eq!(plan.files[4].content, main_java(Some("com.ejemplo")));
}

#[test]
fn new_project_empty_package_is_none() {
    let plan = plan_new_project("demo", Some(""), false).unwrap();
    assert_eq!(plan.main_class, "Main");
    assert_eq!(plan.class_dir, "demo/src");
}

#[test]
fn new_project_errors() {
    assert_eq!(plan_new_project("", None, false).err(), Some("a project name is required".to_string()));
    assert_eq!(
        plan_new_project("a b", Some("bad..pkg"), false).err(),
        Some("`a b` is not a valid project name".to_string())
    );
    assert_eq!(
        plan_new_project("demo", Some("com.1x"), false).err(),
        Some("`com.1x` is not a valid package name".to_string())
    );
}

fn project(package: Option<&str>) -> Project {
    Project {
        root: "/w/demo".to_string(),
        package: package.map(|p| p.to_string()),
        main: "Main".to_string(),
    }
}

#[test]
fn add_class_in_project_package() {
    let plan = plan_add_class(&project(Some("com.ejemplo")), "Persona", None, false, false).unwrap();
    assert_eq!(plan.dir, "/w/demo/src/com/ejemplo");
    assert_eq!(plan.file, "/w/demo/src/com/ejemplo/Persona.java");
    assert_eq!(plan.content, class_java(Some("com.ejemplo"), "Persona"));
    assert!(!plan.lowercase_warning);
}

#[test]
fn add_class_with_own_package() {
    let plan = plan_add_class(&project(Some("com.ejemplo")), "Persona", Some("com.otro"), false, false).unwrap();
    assert_eq!(plan.file, "/w/demo/src/com/otro/Persona.java");
    assert_eq!(plan.content, class_java(Some("com.otro"), "Persona"));
    let plan = plan_add_class(&project(None), "Persona", Some(""), false, false).unwrap();
    assert_eq!(plan.file, "/w/demo/src/Persona.java");
    assert_eq!(plan.content, class_java(None, "Persona"));
}

#[test]
fn add_interface() {
    let plan = plan_add_class(&project(None), "Contrato", None, true, false).unwrap();
    assert_eq!(plan.content, interface_java(None, "Contrato"));
}

#[test]
fn add_lowercase_warns() {
    let plan = plan_add_class(&project(None), "persona", None, false, false).unwrap();
    assert!(plan.lowercase_warning);
    let plan = plan_add_class(&project(None), "_x", None, false, false).unwrap();
    assert!(!plan.lowercase_warning);
}

#[test]
fn add_errors() {
    let p = project(None);
    assert_eq!(plan_add_class(&p, "", None, false, false).err(), Some("a class name is required".to_string()));
    assert_eq!(
        plan_add_class(&p, "1x", Some("bad..x"), false, false).err(),
        Some("`1x` is not a valid class name".to_string())
    );
    assert_eq!(
        plan_add_class(&p, "X", Some("bad..x"), false, false).err(),
        Some("`bad..x` is not a valid package name".to_string())
    );
}

#[test]
fn windows_paths_for_new_and_add() {
    let plan = plan_new_project("demo", Some("com.ejemplo"), true).unwrap();
    assert_eq!(plan.class_dir, "demo\\src\\com/ejemplo");
    assert_eq!(plan.files[0].path, "demo\\.gitignore");
    assert_eq!(plan.files[4].path, "demo\\src\\com/ejemplo\\Main.java");
    let plan = plan_add_class(&project(None), "Persona", None, false, true).unwrap();
    assert_eq!(plan.file, "/w/demo\\src\\Persona.java");
}
