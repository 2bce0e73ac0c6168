//! Creating a project: its kind, its directories and its manifest.
use vstd::prelude::*;
use crate::text::{concat, lemma_views_push, owned, push_str, str_eq, to_lowercase, unicode_lowercase, views};

verus! {

/// The kind of a new project.
#[derive(Debug, Clone, Copy, PartialEq, Eq, Structural)]
pub enum ProjectType {
    Fullstack,
    Api,
    Microservice,
    Serverless,
}

/// The kind a lowercase name selects: `fullstack` or `web`, `api` or
/// `minimal`, `microservice`, `serverless`.
pub open spec fn project_type_named(lower: Seq<char>) -> Option<ProjectType> {
    if lower == "fullstack"@ || lower == "web"@ {
        Some(ProjectType::Fullstack)
    } else if lower == "api"@ || lower == "minimal"@ {
        Some(ProjectType::Api)
    } else if lower == "microservice"@ {
        Some(ProjectType::Microservice)
    } else if lower == "serverless"@ {
        Some(ProjectType::Serverless)
    } else {
        None
    }
}

impl ProjectType {
    /// The kind an already lowercased name selects.
    pub fn from_lowercase(lower: &str) -> (r: Option<ProjectType>)
        ensures
            r == project_type_named(lower@),
    {
        if str_eq(lower, "fullstack") || str_eq(lower, "web") {
            Some(ProjectType::Fullstack)
        } else if str_eq(lower, "api") || str_eq(lower, "minimal") {
            Some(ProjectType::Api)
        } else if str_eq(lower, "microservice") {
            Some(ProjectType::Microservice)
        } else if str_eq(lower, "serverless") {
            Some(ProjectType::Serverless)
        } else {
            None
        }
    }

    /// The kind a name selects, in any letter case.
    pub fn from_str(s: &str) -> (r: Option<ProjectType>)
        ensures
            r == project_type_named(unicode_lowercase(s@)),
    {
        let lower = to_lowercase(s);
        ProjectType::from_lowercase(lower.as_str())
    }

    /// The label shown while creating the project.
    pub fn as_str(&self) -> (r: &'static str)
        ensures
            r@ == match self {
                ProjectType::Fullstack => "Fullstack Application"@,
                ProjectType::Api => "REST API"@,
                ProjectType::Microservice => "Microservice"@,
                ProjectType::Serverless => "Serverless Function"@,
            },
    {
        match self {
            ProjectType::Fullstack => "Fullstack Application",
            ProjectType::Api => "REST API",
            ProjectType::Microservice => "Microservice",
            ProjectType::Serverless => "Serverless Function",
        }
    }

    /// The kind chosen by its position in the interactive menu.
    pub fn from_selection(index: usize) -> (r: Option<ProjectType>)
        ensures
            r == if index == 0 {
                Some(ProjectType::Fullstack)
            } else if index == 1 {
                Some(ProjectType::Api)
            } else if index == 2 {
                Some(ProjectType::Microservice)
            } else if index == 3 {
                Some(ProjectType::Serverless)
            } else {
                None
            },
    {
        if index == 0 {
            Some(ProjectType::Fullstack)
        } else if index == 1 {
            Some(ProjectType::Api)
        } else if index == 2 {
            Some(ProjectType::Microservice)
        } else if index == 3 {
            Some(ProjectType::Serverless)
        } else {
            None
        }
    }
}

/// The message for a kind that is not known.
pub fn invalid_project_type_message() -> (r: &'static str)
    ensures
        r@ == "Invalid project type/template. Options: fullstack, web, api, minimal, microservice, serverless"@,
{
    "Invalid project type/template. Options: fullstack, web, api, minimal, microservice, serverless"
}

/// The kind asked for on the command line: the project type, else the
/// template; `Ok(None)` when neither was given (the user is asked), `Err`
/// when the given name selects no kind.
pub fn resolve_project_type(project_type: Option<&str>, template: Option<&str>) -> (r: Result<
    Option<ProjectType>,
    (),
>)
    ensures
        match (match project_type {
            Some(p) => Some(p@),
            None => match template {
                Some(t) => Some(t@),
                None => None,
            },
        }) {
            None => r == Ok::<Option<ProjectType>, ()>(None),
            Some(v) => match project_type_named(unicode_lowercase(v)) {
                Some(k) => r == Ok::<Option<ProjectType>, ()>(Some(k)),
                None => r is Err,
            },
        },
{
    let chosen = match project_type {
        Some(p) => Some(p),
        None => template,
    };
    match chosen {
        None => Ok(None),
        Some(v) => match ProjectType::from_str(v) {
            Some(k) => Ok(Some(k)),
            None => Err(()),
        },
    }
}

/// The directories of a new project, relative to its root, in the order
/// they are created.
pub open spec fn project_dirs_of(t: ProjectType) -> Seq<Seq<char>> {
    match t {
        ProjectType::Serverless => seq![
            "src"@, "src/handlers"@, "src/core"@, "src/config"@, "tests"@, "infra"@,
            "infra/aws"@, "infra/cloudflare"@, "config"@,
        ],
        ProjectType::Microservice => seq![
            "src"@, "src/handlers"@, "src/core"@, "src/events"@, "src/queues"@, "src/models"@,
            "src/config"@, "src/utils"@, "tests"@, "migrations"@, "seeds"@,
        ],
        _ => seq![
            "src"@, "src/models"@, "src/routes"@, "src/controllers"@, "src/services"@,
            "src/middleware"@, "src/validators"@, "src/jobs"@, "src/policies"@, "src/events"@,
            "src/utils"@, "src/config"@, "tests"@, "migrations"@, "seeds"@,
        ] + if t == ProjectType::Fullstack {
            seq!["templates"@, "public"@, "public/css"@, "public/js"@, "public/images"@]
        } else {
            Seq::empty()
        },
    }
}

fn push_dir(v: &mut Vec<String>, d: &str)
    ensures
        views(final(v)@) == views(old(v)@).push(d@),
{
    let ghost before = v@;
    let s = owned(d);
    v.push(s);
    proof {
        lemma_views_push(before, s);
    }
}

pub fn project_dirs(t: ProjectType) -> (r: Vec<String>)
    ensures
        views(r@) == project_dirs_of(t),
{
    let mut v: Vec<String> = Vec::new();
    match t {
        ProjectType::Serverless => {
            push_dir(&mut v, "src");
            push_dir(&mut v, "src/handlers");
            push_dir(&mut v, "src/core");
            push_dir(&mut v, "src/config");
            push_dir(&mut v, "tests");
            push_dir(&mut v, "infra");
            push_dir(&mut v, "infra/aws");
            push_dir(&mut v, "infra/cloudflare");
            push_dir(&mut v, "config");
            assert(views(v@) =~= project_dirs_of(t));
        },
        ProjectType::Microservice => {
            push_dir(&mut v, "src");
            push_dir(&mut v, "src/handlers");
            push_dir(&mut v, "src/core");
            push_dir(&mut v, "src/events");
            push_dir(&mut v, "src/queues");
            push_dir(&mut v, "src/models");
            push_dir(&mut v, "src/config");
            push_dir(&mut v, "src/utils");
            push_dir(&mut v, "tests");
            push_dir(&mut v, "migrations");
            push_dir(&mut v, "seeds");
            assert(views(v@) =~= project_dirs_of(t));
        },
        _ => {
            push_dir(&mut v, "src");
            push_dir(&mut v, "src/models");
            push_dir(&mut v, "src/routes");
            push_dir(&mut v, "src/controllers");
            push_dir(&mut v, "src/services");
            push_dir(&mut v, "src/middleware");
            push_dir(&mut v, "src/validators");
            push_dir(&mut v, "src/jobs");
            push_dir(&mut v, "src/policies");
            push_dir(&mut v, "src/events");
            push_dir(&mut v, "src/utils");
            push_dir(&mut v, "src/config");
            push_dir(&mut v, "tests");
            push_dir(&mut v, "migrations");
            push_dir(&mut v, "seeds");
            let ghost base = views(v@);
            let full = match t {
                ProjectType::Fullstack => true,
                _ => false,
            };
            if full {
                push_dir(&mut v, "templates");
                push_dir(&mut v, "public");
                push_dir(&mut v, "public/css");
                push_dir(&mut v, "public/js");
                push_dir(&mut v, "public/images");
                assert(views(v@) =~= base + seq!["templates"@, "public"@, "public/css"@, "public/js"@, "public/images"@]);
            } else {
                assert(views(v@) =~= base + Seq::<Seq<char>>::empty());
            }
            assert(base =~= seq![
                "src"@, "src/models"@, "src/routes"@, "src/controllers"@, "src/services"@,
                "src/middleware"@, "src/validators"@, "src/jobs"@, "src/policies"@, "src/events"@,
                "src/utils"@, "src/config"@, "tests"@, "migrations"@, "seeds"@,
            ]);
        },
    }
    v
}

/// The version of the framework that new projects depend on.
pub const FRAMEWORK_VERSION: &'static str = "2.3.4";

/// The comment, feature list and extra dependencies of a kind's manifest.
pub open spec fn manifest_choices(t: ProjectType) -> (Seq<char>, Seq<char>, Seq<char>) {
    match t {
        ProjectType::Fullstack => (FULLSTACK_COMMENT@, FULLSTACK_FEATURES@, Seq::empty()),
        ProjectType::Api => (PARTIAL_COMMENT@, PARTIAL_FEATURES@, Seq::empty()),
        ProjectType::Microservice => (PARTIAL_COMMENT@, PARTIAL_FEATURES@, TRACING_DEPS@),
        ProjectType::Serverless => (MINIMAL_COMMENT@, MINIMAL_FEATURES@, TRACING_DEPS@),
    }
}

pub const FULLSTACK_COMMENT: &'static str = "full — everything included";
pub const FULLSTACK_FEATURES: &'static str = r#"features = ["full"]"#;
pub const PARTIAL_COMMENT: &'static str = "all features except templates (use fullstack if you need HTML)";
pub const PARTIAL_FEATURES: &'static str = r#"default-features = false, features = ["database", "auth", "queue", "cache", "realtime", "mail", "storage", "graphql", "plugin", "security", "utils"]"#;
pub const MINIMAL_COMMENT: &'static str = "minimal — add features as needed (database, auth, queue, ...)";
pub const MINIMAL_FEATURES: &'static str = r#"default-features = false, features = ["minimal"]"#;
pub const TRACING_DEPS: &'static str = r#"
tracing = "0.1"
tracing-subscriber = { version = "0.3", features = ["env-filter"] }"#;

pub const MANIFEST_HEAD: &'static str = r#"[package]
name = ""#;
pub const MANIFEST_AFTER_NAME: &'static str = r#""
version = "0.1.0"
edition = "2021"

[dependencies]
# Oxidite — only the features this project type needs: "#;
pub const MANIFEST_AFTER_COMMENT: &'static str = r#".
# To add more: oxidite = { features = ["auth", "realtime", ...] }
        oxidite = { version = ""#;
pub const MANIFEST_AFTER_VERSION: &'static str = r#"", "#;
pub const MANIFEST_AFTER_FEATURES: &'static str = r#" }

tokio = { version = "1", features = ["full"] }

serde = { version = "1", features = ["derive"] }
serde_json = "1""#;
pub const MANIFEST_AFTER_DEPS: &'static str = r#"

[dev-dependencies]
oxidite-testing = ""#;
pub const MANIFEST_TAIL: &'static str = r#""
"#;

/// The manifest of a new project named `name`.
pub open spec fn project_manifest(name: Seq<char>, t: ProjectType) -> Seq<char> {
    let (comment, features, extra) = manifest_choices(t);
    MANIFEST_HEAD@ + name + MANIFEST_AFTER_NAME@ + comment + MANIFEST_AFTER_COMMENT@ + FRAMEWORK_VERSION@
        + MANIFEST_AFTER_VERSION@ + features + MANIFEST_AFTER_FEATURES@ + extra + MANIFEST_AFTER_DEPS@
        + FRAMEWORK_VERSION@ + MANIFEST_TAIL@
}

pub fn create_cargo_toml(name: &str, t: ProjectType) -> (r: String)
    ensures
        r@ == project_manifest(name@, t),
{
    let (comment, features, extra) = match t {
        ProjectType::Fullstack => (FULLSTACK_COMMENT, FULLSTACK_FEATURES, ""),
        ProjectType::Api => (PARTIAL_COMMENT, PARTIAL_FEATURES, ""),
        ProjectType::Microservice => (PARTIAL_COMMENT, PARTIAL_FEATURES, TRACING_DEPS),
        ProjectType::Serverless => (MINIMAL_COMMENT, MINIMAL_FEATURES, TRACING_DEPS),
    };
    proof {
        reveal_strlit("");
        assert(""@ =~= Seq::<char>::empty());
    }
    let mut r = concat(MANIFEST_HEAD, name);
    push_str(&mut r, MANIFEST_AFTER_NAME);
    push_str(&mut r, comment);
    push_str(&mut r, MANIFEST_AFTER_COMMENT);
    push_str(&mut r, FRAMEWORK_VERSION);
    push_str(&mut r, MANIFEST_AFTER_VERSION);
    push_str(&mut r, features);
    push_str(&mut r, MANIFEST_AFTER_FEATURES);
    push_str(&mut r, extra);
    push_str(&mut r, MANIFEST_AFTER_DEPS);
    push_str(&mut r, FRAMEWORK_VERSION);
    push_str(&mut r, MANIFEST_TAIL);
    r
}

/// The `.gitignore` of a new project.
pub const GITIGNORE: &'static str = "/target\nCargo.lock\n*.db\n*.log\n.env\n";

} // verus!
