//! The files that a new project starts with: which paths, and what each holds.
use vstd::prelude::*;
use crate::cli::maintenance::DeployTarget;
use crate::cli::project::{create_cargo_toml, project_dirs_of, project_manifest, ProjectType, GITIGNORE};
use crate::cli::templates::{
    TEST_FILE_SERVERLESS, TEST_FILE_MICROSERVICE, TEST_FILE_STANDARD, STRUCTURE_SERVERLESS,
    STRUCTURE_MICROSERVICE, STRUCTURE_STANDARD, TARGETS_SERVERLESS, TARGETS_FULLSTACK,
    TARGETS_API, TARGETS_MICROSERVICE, README_HEAD, README_AFTER_NAME, README_AFTER_KIND,
    README_AFTER_QUICK_START, README_AFTER_STRUCTURE, README_AFTER_TARGETS, README_TAIL,
    KIND_FULLSTACK, KIND_API, KIND_MICROSERVICE, KIND_SERVERLESS, QUICK_START_SERVERLESS,
    QUICK_START_STANDARD, MIGRATE_ROW_SERVERLESS, MIGRATE_ROW_STANDARD, BUILD_SERVERLESS,
    BUILD_STANDARD, GUIDES_SERVERLESS, GUIDES_FULLSTACK, GUIDES_STANDARD, DEPLOY_HEAD,
    DEPLOY_AFTER_TITLE, DEPLOY_AFTER_NAME, DEPLOY_AFTER_BUILD, DEPLOY_TAIL, CONFIG_HEAD,
    CONFIG_STANDARD, CONFIG_MICROSERVICE, CONFIG_SERVERLESS, MAIN_FULLSTACK, MAIN_MICROSERVICE,
    MAIN_API, MAIN_SERVERLESS, MODELS_MOD, CONTROLLERS_MOD, SERVICES_MOD, MIDDLEWARE_MOD,
    VALIDATORS_MOD, JOBS_MOD, POLICIES_MOD, EVENTS_MOD, ROUTES_FULLSTACK, ROUTES_API, STYLE_CSS,
    APP_JS, INDEX_HTML, MS_HANDLERS_MOD, MS_HEALTH, MS_CORE, MS_EVENTS, MS_QUEUES, MS_MODELS,
    MS_CONFIG, SL_HANDLERS_MOD, SL_API, SL_EVENT, SL_CRON, SL_CORE, SL_CONFIG, SL_MAIN_TF,
    SL_VARIABLES_TF, WRANGLER_HEAD, WRANGLER_TAIL, SL_DEV_TOML, SL_STAGING_TOML, SL_PROD_TOML,
    SL_ENV_EXAMPLE, LAMBDA_DOCKERFILE, LAMBDA_DEPLOY_SCRIPT, LAMBDA_TF, DOCKER_DOCKERFILE,
    DOCKER_COMPOSE, CLOUDFLARE_WRANGLER,
};
use crate::text::{concat, owned, push_str, replace_all, replaced};

verus! {

/// The word in the deployment guides and the Terraform module that stands for
/// the project's name.
pub const NAME_PLACEHOLDER: &'static str = "PROJECT_NAME";

/// The integration test file of a kind of project.
pub open spec fn test_file_of(t: ProjectType) -> Seq<char> {
    match t {
        ProjectType::Serverless => TEST_FILE_SERVERLESS@,
        ProjectType::Microservice => TEST_FILE_MICROSERVICE@,
        _ => TEST_FILE_STANDARD@,
    }
}

/// The contents of `tests/integration_test.rs`.
pub fn create_test_file(t: ProjectType) -> (r: &'static str)
    ensures
        r@ == test_file_of(t),
{
    match t {
        ProjectType::Serverless => TEST_FILE_SERVERLESS,
        ProjectType::Microservice => TEST_FILE_MICROSERVICE,
        _ => TEST_FILE_STANDARD,
    }
}

/// What the README says of a kind of project: its name for the kind, the
/// quick-start commands, the directory drawing, the deployment rows and the
/// last command row.
pub open spec fn readme_parts(t: ProjectType) -> (Seq<char>, Seq<char>, Seq<char>, Seq<char>, Seq<char>) {
    match t {
        ProjectType::Fullstack => (
            KIND_FULLSTACK@,
            QUICK_START_STANDARD@,
            STRUCTURE_STANDARD@,
            TARGETS_FULLSTACK@,
            MIGRATE_ROW_STANDARD@,
        ),
        ProjectType::Api => (
            KIND_API@,
            QUICK_START_STANDARD@,
            STRUCTURE_STANDARD@,
            TARGETS_API@,
            MIGRATE_ROW_STANDARD@,
        ),
        ProjectType::Microservice => (
            KIND_MICROSERVICE@,
            QUICK_START_STANDARD@,
            STRUCTURE_MICROSERVICE@,
            TARGETS_MICROSERVICE@,
            MIGRATE_ROW_STANDARD@,
        ),
        ProjectType::Serverless => (
            KIND_SERVERLESS@,
            QUICK_START_SERVERLESS@,
            STRUCTURE_SERVERLESS@,
            TARGETS_SERVERLESS@,
            MIGRATE_ROW_SERVERLESS@,
        ),
    }
}

/// The README of a new project named `name`.
pub open spec fn readme_of(name: Seq<char>, t: ProjectType) -> Seq<char> {
    let (kind, quick, structure, targets, last_row) = readme_parts(t);
    README_HEAD@ + name + README_AFTER_NAME@ + kind + README_AFTER_KIND@ + quick
        + README_AFTER_QUICK_START@ + structure + README_AFTER_STRUCTURE@ + targets
        + README_AFTER_TARGETS@ + last_row + README_TAIL@
}

/// The contents of `README.md`.
pub fn create_readme(name: &str, t: ProjectType) -> (r: String)
    ensures
        r@ == readme_of(name@, t),
{
    let (kind, quick, structure, targets, last_row) = match t {
        ProjectType::Fullstack => (
            KIND_FULLSTACK,
            QUICK_START_STANDARD,
            STRUCTURE_STANDARD,
            TARGETS_FULLSTACK,
            MIGRATE_ROW_STANDARD,
        ),
        ProjectType::Api => (
            KIND_API,
            QUICK_START_STANDARD,
            STRUCTURE_STANDARD,
            TARGETS_API,
            MIGRATE_ROW_STANDARD,
        ),
        ProjectType::Microservice => (
            KIND_MICROSERVICE,
            QUICK_START_STANDARD,
            STRUCTURE_MICROSERVICE,
            TARGETS_MICROSERVICE,
            MIGRATE_ROW_STANDARD,
        ),
        ProjectType::Serverless => (
            KIND_SERVERLESS,
            QUICK_START_SERVERLESS,
            STRUCTURE_SERVERLESS,
            TARGETS_SERVERLESS,
            MIGRATE_ROW_SERVERLESS,
        ),
    };
    let mut r = concat(README_HEAD, name);
    push_str(&mut r, README_AFTER_NAME);
    push_str(&mut r, kind);
    push_str(&mut r, README_AFTER_KIND);
    push_str(&mut r, quick);
    push_str(&mut r, README_AFTER_QUICK_START);
    push_str(&mut r, structure);
    push_str(&mut r, README_AFTER_STRUCTURE);
    push_str(&mut r, targets);
    push_str(&mut r, README_AFTER_TARGETS);
    push_str(&mut r, last_row);
    push_str(&mut r, README_TAIL);
    r
}

/// The build section and the platform guides of a kind's deployment guide.
pub open spec fn deployment_parts(t: ProjectType) -> (Seq<char>, Seq<char>) {
    match t {
        ProjectType::Serverless => (BUILD_SERVERLESS@, GUIDES_SERVERLESS@),
        ProjectType::Fullstack => (BUILD_STANDARD@, GUIDES_FULLSTACK@),
        _ => (BUILD_STANDARD@, GUIDES_STANDARD@),
    }
}

/// The deployment guide of a new project named `name`: the platform guides
/// carry the name wherever the placeholder stood.
pub open spec fn deployment_doc_of(name: Seq<char>, t: ProjectType) -> Seq<char> {
    let (build, guides) = deployment_parts(t);
    DEPLOY_HEAD@ + name + DEPLOY_AFTER_TITLE@ + name + DEPLOY_AFTER_NAME@ + build
        + DEPLOY_AFTER_BUILD@ + replaced(guides, NAME_PLACEHOLDER@, name) + DEPLOY_TAIL@
}

/// `text` with the project's name wherever the placeholder stood.
pub fn fill_in_name(text: &str, name: &str) -> (r: String)
    ensures
        r@ == replaced(text@, NAME_PLACEHOLDER@, name@),
{
    proof {
        reveal_strlit("PROJECT_NAME");
    }
    replace_all(text, NAME_PLACEHOLDER, name)
}

/// The contents of `DEPLOYMENT.md`.
pub fn create_deployment_doc(name: &str, t: ProjectType) -> (r: String)
    ensures
        r@ == deployment_doc_of(name@, t),
{
    let (build, guides) = match t {
        ProjectType::Serverless => (BUILD_SERVERLESS, GUIDES_SERVERLESS),
        ProjectType::Fullstack => (BUILD_STANDARD, GUIDES_FULLSTACK),
        _ => (BUILD_STANDARD, GUIDES_STANDARD),
    };
    let filled = fill_in_name(guides, name);
    let mut r = concat(DEPLOY_HEAD, name);
    push_str(&mut r, DEPLOY_AFTER_TITLE);
    push_str(&mut r, name);
    push_str(&mut r, DEPLOY_AFTER_NAME);
    push_str(&mut r, build);
    push_str(&mut r, DEPLOY_AFTER_BUILD);
    push_str(&mut r, filled.as_str());
    push_str(&mut r, DEPLOY_TAIL);
    r
}

/// The `oxidite.toml` of a kind of project: the shared start, then the
/// sections of the kind.
pub open spec fn config_toml_of(t: ProjectType) -> Seq<char> {
    CONFIG_HEAD@ + match t {
        ProjectType::Fullstack | ProjectType::Api => CONFIG_STANDARD@,
        ProjectType::Microservice => CONFIG_MICROSERVICE@,
        ProjectType::Serverless => CONFIG_SERVERLESS@,
    }
}

/// The contents of `oxidite.toml`.
pub fn create_config_toml(t: ProjectType) -> (r: String)
    ensures
        r@ == config_toml_of(t),
{
    let rest = match t {
        ProjectType::Fullstack | ProjectType::Api => CONFIG_STANDARD,
        ProjectType::Microservice => CONFIG_MICROSERVICE,
        ProjectType::Serverless => CONFIG_SERVERLESS,
    };
    concat(CONFIG_HEAD, rest)
}

/// The entry point of a kind of project.
pub open spec fn main_rs_of(t: ProjectType) -> Seq<char> {
    match t {
        ProjectType::Fullstack => MAIN_FULLSTACK@,
        ProjectType::Microservice => MAIN_MICROSERVICE@,
        ProjectType::Api => MAIN_API@,
        ProjectType::Serverless => MAIN_SERVERLESS@,
    }
}

/// The contents of `src/main.rs`.
pub fn create_main_rs(t: ProjectType) -> (r: &'static str)
    ensures
        r@ == main_rs_of(t),
{
    match t {
        ProjectType::Fullstack => MAIN_FULLSTACK,
        ProjectType::Microservice => MAIN_MICROSERVICE,
        ProjectType::Api => MAIN_API,
        ProjectType::Serverless => MAIN_SERVERLESS,
    }
}

/// The `wrangler.toml` of a serverless project named `name`.
pub open spec fn wrangler_of(name: Seq<char>) -> Seq<char> {
    WRANGLER_HEAD@ + name + WRANGLER_TAIL@
}

// ---------------------------------------------------------------------------
// The files, path by path
// ---------------------------------------------------------------------------

/// Each file's path and contents, as character sequences.
pub open spec fn files_view(v: Seq<(String, String)>) -> Seq<(Seq<char>, Seq<char>)> {
    v.map_values(|f: (String, String)| (f.0@, f.1@))
}

/// Appends a file to a plan.
fn add_file(files: &mut Vec<(String, String)>, path: &str, contents: String)
    ensures
        files_view(final(files)@) == files_view(old(files)@).push((path@, contents@)),
{
    files.push((owned(path), contents));
    proof {
        assert(files_view(files@) =~= files_view(old(files)@).push((path@, contents@)));
    }
}

/// The module files that a fullstack or API project starts with.
pub open spec fn module_files_of() -> Seq<(Seq<char>, Seq<char>)> {
    seq![
        ("src/models/mod.rs"@, MODELS_MOD@),
        ("src/controllers/mod.rs"@, CONTROLLERS_MOD@),
        ("src/services/mod.rs"@, SERVICES_MOD@),
        ("src/middleware/mod.rs"@, MIDDLEWARE_MOD@),
        ("src/validators/mod.rs"@, VALIDATORS_MOD@),
        ("src/jobs/mod.rs"@, JOBS_MOD@),
        ("src/policies/mod.rs"@, POLICIES_MOD@),
        ("src/events/mod.rs"@, EVENTS_MOD@),
    ]
}

/// The files of a fullstack or API project besides the shared ones: the
/// module files, the routes, and for a fullstack project its assets and
/// welcome page.
pub open spec fn standard_files_of(t: ProjectType) -> Seq<(Seq<char>, Seq<char>)> {
    if t == ProjectType::Fullstack {
        module_files_of() + seq![
            ("src/routes/mod.rs"@, ROUTES_FULLSTACK@),
            ("public/css/style.css"@, STYLE_CSS@),
            ("public/js/app.js"@, APP_JS@),
            ("templates/index.html"@, INDEX_HTML@),
        ]
    } else {
        module_files_of() + seq![("src/routes/mod.rs"@, ROUTES_API@)]
    }
}

fn add_standard_files(files: &mut Vec<(String, String)>, t: ProjectType)
    requires
        t == ProjectType::Fullstack || t == ProjectType::Api,
    ensures
        files_view(final(files)@) == files_view(old(files)@) + standard_files_of(t),
{
    add_file(files, "src/models/mod.rs", owned(MODELS_MOD));
    add_file(files, "src/controllers/mod.rs", owned(CONTROLLERS_MOD));
    add_file(files, "src/services/mod.rs", owned(SERVICES_MOD));
    add_file(files, "src/middleware/mod.rs", owned(MIDDLEWARE_MOD));
    add_file(files, "src/validators/mod.rs", owned(VALIDATORS_MOD));
    add_file(files, "src/jobs/mod.rs", owned(JOBS_MOD));
    add_file(files, "src/policies/mod.rs", owned(POLICIES_MOD));
    add_file(files, "src/events/mod.rs", owned(EVENTS_MOD));
    match t {
        ProjectType::Fullstack => {
            add_file(files, "src/routes/mod.rs", owned(ROUTES_FULLSTACK));
            add_file(files, "public/css/style.css", owned(STYLE_CSS));
            add_file(files, "public/js/app.js", owned(APP_JS));
            add_file(files, "templates/index.html", owned(INDEX_HTML));
        },
        _ => {
            add_file(files, "src/routes/mod.rs", owned(ROUTES_API));
        },
    }
    assert(files_view(files@) =~= files_view(old(files)@) + standard_files_of(t));
}

/// The files of a microservice besides the shared ones.
pub open spec fn microservice_files_of() -> Seq<(Seq<char>, Seq<char>)> {
    seq![
        ("src/handlers/mod.rs"@, MS_HANDLERS_MOD@),
        ("src/handlers/health.rs"@, MS_HEALTH@),
        ("src/core/mod.rs"@, MS_CORE@),
        ("src/events/mod.rs"@, MS_EVENTS@),
        ("src/queues/mod.rs"@, MS_QUEUES@),
        ("src/models/mod.rs"@, MS_MODELS@),
        ("src/config/mod.rs"@, MS_CONFIG@),
    ]
}

fn add_microservice_files(files: &mut Vec<(String, String)>)
    ensures
        files_view(final(files)@) == files_view(old(files)@) + microservice_files_of(),
{
    add_file(files, "src/handlers/mod.rs", owned(MS_HANDLERS_MOD));
    add_file(files, "src/handlers/health.rs", owned(MS_HEALTH));
    add_file(files, "src/core/mod.rs", owned(MS_CORE));
    add_file(files, "src/events/mod.rs", owned(MS_EVENTS));
    add_file(files, "src/queues/mod.rs", owned(MS_QUEUES));
    add_file(files, "src/models/mod.rs", owned(MS_MODELS));
    add_file(files, "src/config/mod.rs", owned(MS_CONFIG));
    assert(files_view(files@) =~= files_view(old(files)@) + microservice_files_of());
}

/// The files of a microservice besides the shared ones.
pub fn create_microservice_boilerplate() -> (r: Vec<(String, String)>)
    ensures
        files_view(r@) == microservice_files_of(),
{
    let mut r: Vec<(String, String)> = Vec::new();
    add_microservice_files(&mut r);
    assert(files_view(Seq::<(String, String)>::empty()) =~= Seq::empty());
    assert(Seq::<(Seq<char>, Seq<char>)>::empty() + microservice_files_of() =~= microservice_files_of());
    r
}

/// The files of a serverless project named `name` besides the shared ones:
/// its handlers, shared code, configuration, infrastructure and environment
/// overrides.
pub open spec fn serverless_files_of(name: Seq<char>) -> Seq<(Seq<char>, Seq<char>)> {
    seq![
        ("src/handlers/mod.rs"@, SL_HANDLERS_MOD@),
        ("src/handlers/api.rs"@, SL_API@),
        ("src/handlers/event.rs"@, SL_EVENT@),
        ("src/handlers/cron.rs"@, SL_CRON@),
        ("src/core/mod.rs"@, SL_CORE@),
        ("src/config/mod.rs"@, SL_CONFIG@),
        ("infra/aws/main.tf"@, replaced(SL_MAIN_TF@, NAME_PLACEHOLDER@, name)),
        ("infra/aws/variables.tf"@, SL_VARIABLES_TF@),
        ("infra/cloudflare/wrangler.toml"@, wrangler_of(name)),
        ("config/dev.toml"@, SL_DEV_TOML@),
        ("config/staging.toml"@, SL_STAGING_TOML@),
        ("config/prod.toml"@, SL_PROD_TOML@),
        (".env.example"@, SL_ENV_EXAMPLE@),
    ]
}

fn add_serverless_files(files: &mut Vec<(String, String)>, name: &str)
    ensures
        files_view(final(files)@) == files_view(old(files)@) + serverless_files_of(name@),
{
    add_file(files, "src/handlers/mod.rs", owned(SL_HANDLERS_MOD));
    add_file(files, "src/handlers/api.rs", owned(SL_API));
    add_file(files, "src/handlers/event.rs", owned(SL_EVENT));
    add_file(files, "src/handlers/cron.rs", owned(SL_CRON));
    add_file(files, "src/core/mod.rs", owned(SL_CORE));
    add_file(files, "src/config/mod.rs", owned(SL_CONFIG));
    add_file(files, "infra/aws/main.tf", fill_in_name(SL_MAIN_TF, name));
    add_file(files, "infra/aws/variables.tf", owned(SL_VARIABLES_TF));
    let mut wrangler = concat(WRANGLER_HEAD, name);
    push_str(&mut wrangler, WRANGLER_TAIL);
    add_file(files, "infra/cloudflare/wrangler.toml", wrangler);
    add_file(files, "config/dev.toml", owned(SL_DEV_TOML));
    add_file(files, "config/staging.toml", owned(SL_STAGING_TOML));
    add_file(files, "config/prod.toml", owned(SL_PROD_TOML));
    add_file(files, ".env.example", owned(SL_ENV_EXAMPLE));
    assert(files_view(files@) =~= files_view(old(files)@) + serverless_files_of(name@));
}

/// The files of a serverless project named `name` besides the shared ones.
pub fn create_serverless_boilerplate(name: &str) -> (r: Vec<(String, String)>)
    ensures
        files_view(r@) == serverless_files_of(name@),
{
    let mut r: Vec<(String, String)> = Vec::new();
    add_serverless_files(&mut r, name);
    assert(files_view(Seq::<(String, String)>::empty()) =~= Seq::empty());
    assert(Seq::<(Seq<char>, Seq<char>)>::empty() + serverless_files_of(name@) =~= serverless_files_of(
        name@,
    ));
    r
}

/// The files that a kind of project adds to the shared ones.
pub open spec fn boilerplate_of(name: Seq<char>, t: ProjectType) -> Seq<(Seq<char>, Seq<char>)> {
    match t {
        ProjectType::Serverless => serverless_files_of(name),
        ProjectType::Microservice => microservice_files_of(),
        _ => standard_files_of(t),
    }
}

fn add_boilerplate(files: &mut Vec<(String, String)>, name: &str, t: ProjectType)
    ensures
        files_view(final(files)@) == files_view(old(files)@) + boilerplate_of(name@, t),
{
    match t {
        ProjectType::Serverless => add_serverless_files(files, name),
        ProjectType::Microservice => add_microservice_files(files),
        _ => add_standard_files(files, t),
    }
}

/// The files that a kind of project adds to the shared ones.
pub fn create_boilerplate(name: &str, t: ProjectType) -> (r: Vec<(String, String)>)
    ensures
        files_view(r@) == boilerplate_of(name@, t),
{
    let mut r: Vec<(String, String)> = Vec::new();
    add_boilerplate(&mut r, name, t);
    assert(files_view(Seq::<(String, String)>::empty()) =~= Seq::empty());
    assert(Seq::<(Seq<char>, Seq<char>)>::empty() + boilerplate_of(name@, t) =~= boilerplate_of(
        name@,
        t,
    ));
    r
}

/// Every file of a new project named `name`, in the order they are written:
/// the integration test, the manifest, the configuration, the entry point,
/// the files of the kind, the deployment guide, the README and the ignore
/// list.
pub open spec fn project_files_of(name: Seq<char>, t: ProjectType) -> Seq<(Seq<char>, Seq<char>)> {
    seq![
        ("tests/integration_test.rs"@, test_file_of(t)),
        ("Cargo.toml"@, project_manifest(name, t)),
        ("oxidite.toml"@, config_toml_of(t)),
        ("src/main.rs"@, main_rs_of(t)),
    ] + boilerplate_of(name, t) + seq![
        ("DEPLOYMENT.md"@, deployment_doc_of(name, t)),
        ("README.md"@, readme_of(name, t)),
        (".gitignore"@, GITIGNORE@),
    ]
}

/// Every file of a new project named `name`, path and contents.
pub fn project_files(name: &str, t: ProjectType) -> (r: Vec<(String, String)>)
    ensures
        files_view(r@) == project_files_of(name@, t),
{
    let mut r: Vec<(String, String)> = Vec::new();
    add_file(&mut r, "tests/integration_test.rs", owned(create_test_file(t)));
    add_file(&mut r, "Cargo.toml", create_cargo_toml(name, t));
    add_file(&mut r, "oxidite.toml", create_config_toml(t));
    add_file(&mut r, "src/main.rs", owned(create_main_rs(t)));
    let ghost head = files_view(r@);
    add_boilerplate(&mut r, name, t);
    let ghost middle = files_view(r@);
    add_file(&mut r, "DEPLOYMENT.md", create_deployment_doc(name, t));
    add_file(&mut r, "README.md", create_readme(name, t));
    add_file(&mut r, ".gitignore", owned(GITIGNORE));
    proof {
        assert(files_view(Seq::<(String, String)>::empty()) =~= Seq::empty());
        assert(head =~= seq![
            ("tests/integration_test.rs"@, test_file_of(t)),
            ("Cargo.toml"@, project_manifest(name@, t)),
            ("oxidite.toml"@, config_toml_of(t)),
            ("src/main.rs"@, main_rs_of(t)),
        ]);
        assert(files_view(r@) =~= middle + seq![
            ("DEPLOYMENT.md"@, deployment_doc_of(name@, t)),
            ("README.md"@, readme_of(name@, t)),
            (".gitignore"@, GITIGNORE@),
        ]);
    }
    r
}

// ---------------------------------------------------------------------------
// Deployment artifacts
// ---------------------------------------------------------------------------

/// The files written for a deployment target, by name within the output
/// directory.
pub open spec fn deploy_artifacts_of(t: DeployTarget) -> Seq<(Seq<char>, Seq<char>)> {
    match t {
        DeployTarget::AwsLambda => seq![
            ("Dockerfile"@, LAMBDA_DOCKERFILE@),
            ("deploy-aws.sh"@, LAMBDA_DEPLOY_SCRIPT@),
            ("lambda.tf"@, LAMBDA_TF@),
        ],
        DeployTarget::Docker => seq![
            ("Dockerfile"@, DOCKER_DOCKERFILE@),
            ("docker-compose.yml"@, DOCKER_COMPOSE@),
        ],
        DeployTarget::Cloudflare => seq![("wrangler.toml"@, CLOUDFLARE_WRANGLER@)],
    }
}

/// The files written for a deployment target.
pub fn deploy_artifacts(t: DeployTarget) -> (r: Vec<(String, String)>)
    ensures
        files_view(r@) == deploy_artifacts_of(t),
{
    let mut r: Vec<(String, String)> = Vec::new();
    match t {
        DeployTarget::AwsLambda => {
            add_file(&mut r, "Dockerfile", owned(LAMBDA_DOCKERFILE));
            add_file(&mut r, "deploy-aws.sh", owned(LAMBDA_DEPLOY_SCRIPT));
            add_file(&mut r, "lambda.tf", owned(LAMBDA_TF));
        },
        DeployTarget::Docker => {
            add_file(&mut r, "Dockerfile", owned(DOCKER_DOCKERFILE));
            add_file(&mut r, "docker-compose.yml", owned(DOCKER_COMPOSE));
        },
        DeployTarget::Cloudflare => {
            add_file(&mut r, "wrangler.toml", owned(CLOUDFLARE_WRANGLER));
        },
    }
    proof {
        assert(files_view(Seq::<(String, String)>::empty()) =~= Seq::empty());
        assert(files_view(r@) =~= deploy_artifacts_of(t));
    }
    r
}

// ---------------------------------------------------------------------------
// Where the files land
// ---------------------------------------------------------------------------

/// The directory that `path` puts its file in: everything before its last
/// `/`, or nothing for a file at the top of the project.
pub open spec fn parent_of(path: Seq<char>) -> Option<Seq<char>>
    decreases path.len(),
{
    if path.len() == 0 {
        None
    } else if path.last() == '/' {
        Some(path.drop_last())
    } else {
        parent_of(path.drop_last())
    }
}

/// A file at `path` lands at the top of the project or in one of `dirs`.
pub open spec fn lands_in(path: Seq<char>, dirs: Seq<Seq<char>>) -> bool {
    match parent_of(path) {
        None => true,
        Some(d) => dirs.contains(d),
    }
}

/// Every file lands at the top of the project or in one of `dirs`.
pub open spec fn files_fit(files: Seq<(Seq<char>, Seq<char>)>, dirs: Seq<Seq<char>>) -> bool {
    forall|i: int| 0 <= i < files.len() ==> lands_in(#[trigger] files[i].0, dirs)
}

proof fn lemma_parent_of_join(dir: Seq<char>, leaf: Seq<char>)
    requires
        forall|i: int| 0 <= i < leaf.len() ==> leaf[i] != '/',
    ensures
        parent_of(dir + seq!['/'] + leaf) == Some(dir),
    decreases leaf.len(),
{
    if leaf.len() == 0 {
        assert((dir + seq!['/'] + leaf).drop_last() =~= dir);
    } else {
        lemma_parent_of_join(dir, leaf.drop_last());
        assert((dir + seq!['/'] + leaf).drop_last() =~= dir + seq!['/'] + leaf.drop_last());
    }
}

proof fn lemma_parent_of_plain(path: Seq<char>)
    requires
        forall|i: int| 0 <= i < path.len() ==> path[i] != '/',
    ensures
        parent_of(path) == None::<Seq<char>>,
    decreases path.len(),
{
    if path.len() > 0 {
        lemma_parent_of_plain(path.drop_last());
    }
}

proof fn lemma_file_in(path: Seq<char>, dirs: Seq<Seq<char>>, k: int, leaf: Seq<char>)
    requires
        0 <= k < dirs.len(),
        path == dirs[k] + seq!['/'] + leaf,
        forall|i: int| 0 <= i < leaf.len() ==> leaf[i] != '/',
    ensures
        lands_in(path, dirs),
{
    lemma_parent_of_join(dirs[k], leaf);
    assert(dirs[k] == dirs[k]);
}

proof fn lemma_fullstack_files_fit(name: Seq<char>)
    ensures
        files_fit(project_files_of(name, ProjectType::Fullstack), project_dirs_of(ProjectType::Fullstack)),
{
    let files = project_files_of(name, ProjectType::Fullstack);
    let dirs = project_dirs_of(ProjectType::Fullstack);
    assert(files.len() == 19);
    reveal_strlit(".gitignore");
    reveal_strlit("Cargo.toml");
    reveal_strlit("DEPLOYMENT.md");
    reveal_strlit("README.md");
    reveal_strlit("app.js");
    reveal_strlit("index.html");
    reveal_strlit("integration_test.rs");
    reveal_strlit("main.rs");
    reveal_strlit("mod.rs");
    reveal_strlit("oxidite.toml");
    reveal_strlit("public/css");
    reveal_strlit("public/css/style.css");
    reveal_strlit("public/js");
    reveal_strlit("public/js/app.js");
    reveal_strlit("src");
    reveal_strlit("src/controllers");
    reveal_strlit("src/controllers/mod.rs");
    reveal_strlit("src/events");
    reveal_strlit("src/events/mod.rs");
    reveal_strlit("src/jobs");
    reveal_strlit("src/jobs/mod.rs");
    reveal_strlit("src/main.rs");
    reveal_strlit("src/middleware");
    reveal_strlit("src/middleware/mod.rs");
    reveal_strlit("src/models");
    reveal_strlit("src/models/mod.rs");
    reveal_strlit("src/policies");
    reveal_strlit("src/policies/mod.rs");
    reveal_strlit("src/routes");
    reveal_strlit("src/routes/mod.rs");
    reveal_strlit("src/services");
    reveal_strlit("src/services/mod.rs");
    reveal_strlit("src/validators");
    reveal_strlit("src/validators/mod.rs");
    reveal_strlit("style.css");
    reveal_strlit("templates");
    reveal_strlit("templates/index.html");
    reveal_strlit("tests");
    reveal_strlit("tests/integration_test.rs");
    assert(files[0].0 == "tests/integration_test.rs"@);
    assert("tests/integration_test.rs"@ =~= "tests"@ + seq!['/'] + "integration_test.rs"@);
    lemma_file_in(files[0].0, dirs, 12, "integration_test.rs"@);
    assert(files[1].0 == "Cargo.toml"@);
    lemma_parent_of_plain(files[1].0);
    assert(files[2].0 == "oxidite.toml"@);
    lemma_parent_of_plain(files[2].0);
    assert(files[3].0 == "src/main.rs"@);
    assert("src/main.rs"@ =~= "src"@ + seq!['/'] + "main.rs"@);
    lemma_file_in(files[3].0, dirs, 0, "main.rs"@);
    assert(files[4].0 == "src/models/mod.rs"@);
    assert("src/models/mod.rs"@ =~= "src/models"@ + seq!['/'] + "mod.rs"@);
    lemma_file_in(files[4].0, dirs, 1, "mod.rs"@);
    assert(files[5].0 == "src/controllers/mod.rs"@);
    assert("src/controllers/mod.rs"@ =~= "src/controllers"@ + seq!['/'] + "mod.rs"@);
    lemma_file_in(files[5].0, dirs, 3, "mod.rs"@);
    assert(files[6].0 == "src/services/mod.rs"@);
    assert("src/services/mod.rs"@ =~= "src/services"@ + seq!['/'] + "mod.rs"@);
    lemma_file_in(files[6].0, dirs, 4, "mod.rs"@);
    assert(files[7].0 == "src/middleware/mod.rs"@);
    assert("src/middleware/mod.rs"@ =~= "src/middleware"@ + seq!['/'] + "mod.rs"@);
    lemma_file_in(files[7].0, dirs, 5, "mod.rs"@);
    assert(files[8].0 == "src/validators/mod.rs"@);
    assert("src/validators/mod.rs"@ =~= "src/validators"@ + seq!['/'] + "mod.rs"@);
    lemma_file_in(files[8].0, dirs, 6, "mod.rs"@);
    assert(files[9].0 == "src/jobs/mod.rs"@);
    assert("src/jobs/mod.rs"@ =~= "src/jobs"@ + seq!['/'] + "mod.rs"@);
    lemma_file_in(files[9].0, dirs, 7, "mod.rs"@);
    assert(files[10].0 == "src/policies/mod.rs"@);
    assert("src/policies/mod.rs"@ =~= "src/policies"@ + seq!['/'] + "mod.rs"@);
    lemma_file_in(files[10].0, dirs, 8, "mod.rs"@);
    assert(files[11].0 == "src/events/mod.rs"@);
    assert("src/events/mod.rs"@ =~= "src/events"@ + seq!['/'] + "mod.rs"@);
    lemma_file_in(files[11].0, dirs, 9, "mod.rs"@);
    assert(files[12].0 == "src/routes/mod.rs"@);
    assert("src/routes/mod.rs"@ =~= "src/routes"@ + seq!['/'] + "mod.rs"@);
    lemma_file_in(files[12].0, dirs, 2, "mod.rs"@);
    assert(files[13].0 == "public/css/style.css"@);
    assert("public/css/style.css"@ =~= "public/css"@ + seq!['/'] + "style.css"@);
    lemma_file_in(files[13].0, dirs, 17, "style.css"@);
    assert(files[14].0 == "public/js/app.js"@);
    assert("public/js/app.js"@ =~= "public/js"@ + seq!['/'] + "app.js"@);
    lemma_file_in(files[14].0, dirs, 18, "app.js"@);
    assert(files[15].0 == "templates/index.html"@);
    assert("templates/index.html"@ =~= "templates"@ + seq!['/'] + "index.html"@);
    lemma_file_in(files[15].0, dirs, 15, "index.html"@);
    assert(files[16].0 == "DEPLOYMENT.md"@);
    lemma_parent_of_plain(files[16].0);
    assert(files[17].0 == "README.md"@);
    lemma_parent_of_plain(files[17].0);
    assert(files[18].0 == ".gitignore"@);
    lemma_parent_of_plain(files[18].0);
    assert forall|i: int| 0 <= i < files.len() implies lands_in(#[trigger] files[i].0, dirs) by {
        assert(i == 0 || i == 1 || i == 2 || i == 3 || i == 4 || i == 5 || i == 6 || i == 7 || i == 8 || i == 9 || i == 10 || i == 11 || i == 12 || i == 13 || i == 14 || i == 15 || i == 16 || i == 17 || i == 18);
    }
}

proof fn lemma_api_files_fit(name: Seq<char>)
    ensures
        files_fit(project_files_of(name, ProjectType::Api), project_dirs_of(ProjectType::Api)),
{
    let files = project_files_of(name, ProjectType::Api);
    let dirs = project_dirs_of(ProjectType::Api);
    assert(files.len() == 16);
    reveal_strlit(".gitignore");
    reveal_strlit("Cargo.toml");
    reveal_strlit("DEPLOYMENT.md");
    reveal_strlit("README.md");
    reveal_strlit("integration_test.rs");
    reveal_strlit("main.rs");
    reveal_strlit("mod.rs");
    reveal_strlit("oxidite.toml");
    reveal_strlit("src");
    reveal_strlit("src/controllers");
    reveal_strlit("src/controllers/mod.rs");
    reveal_strlit("src/events");
    reveal_strlit("src/events/mod.rs");
    reveal_strlit("src/jobs");
    reveal_strlit("src/jobs/mod.rs");
    reveal_strlit("src/main.rs");
    reveal_strlit("src/middleware");
    reveal_strlit("src/middleware/mod.rs");
    reveal_strlit("src/models");
    reveal_strlit("src/models/mod.rs");
    reveal_strlit("src/policies");
    reveal_strlit("src/policies/mod.rs");
    reveal_strlit("src/routes");
    reveal_strlit("src/routes/mod.rs");
    reveal_strlit("src/services");
    reveal_strlit("src/services/mod.rs");
    reveal_strlit("src/validators");
    reveal_strlit("src/validators/mod.rs");
    reveal_strlit("tests");
    reveal_strlit("tests/integration_test.rs");
    assert(files[0].0 == "tests/integration_test.rs"@);
    assert("tests/integration_test.rs"@ =~= "tests"@ + seq!['/'] + "integration_test.rs"@);
    lemma_file_in(files[0].0, dirs, 12, "integration_test.rs"@);
    assert(files[1].0 == "Cargo.toml"@);
    lemma_parent_of_plain(files[1].0);
    assert(files[2].0 == "oxidite.toml"@);
    lemma_parent_of_plain(files[2].0);
    assert(files[3].0 == "src/main.rs"@);
    assert("src/main.rs"@ =~= "src"@ + seq!['/'] + "main.rs"@);
    lemma_file_in(files[3].0, dirs, 0, "main.rs"@);
    assert(files[4].0 == "src/models/mod.rs"@);
    assert("src/models/mod.rs"@ =~= "src/models"@ + seq!['/'] + "mod.rs"@);
    lemma_file_in(files[4].0, dirs, 1, "mod.rs"@);
    assert(files[5].0 == "src/controllers/mod.rs"@);
    assert("src/controllers/mod.rs"@ =~= "src/controllers"@ + seq!['/'] + "mod.rs"@);
    lemma_file_in(files[5].0, dirs, 3, "mod.rs"@);
    assert(files[6].0 == "src/services/mod.rs"@);
    assert("src/services/mod.rs"@ =~= "src/services"@ + seq!['/'] + "mod.rs"@);
    lemma_file_in(files[6].0, dirs, 4, "mod.rs"@);
    assert(files[7].0 == "src/middleware/mod.rs"@);
    assert("src/middleware/mod.rs"@ =~= "src/middleware"@ + seq!['/'] + "mod.rs"@);
    lemma_file_in(files[7].0, dirs, 5, "mod.rs"@);
    assert(files[8].0 == "src/validators/mod.rs"@);
    assert("src/validators/mod.rs"@ =~= "src/validators"@ + seq!['/'] + "mod.rs"@);
    lemma_file_in(files[8].0, dirs, 6, "mod.rs"@);
    assert(files[9].0 == "src/jobs/mod.rs"@);
    assert("src/jobs/mod.rs"@ =~= "src/jobs"@ + seq!['/'] + "mod.rs"@);
    lemma_file_in(files[9].0, dirs, 7, "mod.rs"@);
    assert(files[10].0 == "src/policies/mod.rs"@);
    assert("src/policies/mod.rs"@ =~= "src/policies"@ + seq!['/'] + "mod.rs"@);
    lemma_file_in(files[10].0, dirs, 8, "mod.rs"@);
    assert(files[11].0 == "src/events/mod.rs"@);
    assert("src/events/mod.rs"@ =~= "src/events"@ + seq!['/'] + "mod.rs"@);
    lemma_file_in(files[11].0, dirs, 9, "mod.rs"@);
    assert(files[12].0 == "src/routes/mod.rs"@);
    assert("src/routes/mod.rs"@ =~= "src/routes"@ + seq!['/'] + "mod.rs"@);
    lemma_file_in(files[12].0, dirs, 2, "mod.rs"@);
    assert(files[13].0 == "DEPLOYMENT.md"@);
    lemma_parent_of_plain(files[13].0);
    assert(files[14].0 == "README.md"@);
    lemma_parent_of_plain(files[14].0);
    assert(files[15].0 == ".gitignore"@);
    lemma_parent_of_plain(files[15].0);
    assert forall|i: int| 0 <= i < files.len() implies lands_in(#[trigger] files[i].0, dirs) by {
        assert(i == 0 || i == 1 || i == 2 || i == 3 || i == 4 || i == 5 || i == 6 || i == 7 || i == 8 || i == 9 || i == 10 || i == 11 || i == 12 || i == 13 || i == 14 || i == 15);
    }
}

proof fn lemma_microservice_files_fit(name: Seq<char>)
    ensures
        files_fit(project_files_of(name, ProjectType::Microservice), project_dirs_of(ProjectType::Microservice)),
{
    let files = project_files_of(name, ProjectType::Microservice);
    let dirs = project_dirs_of(ProjectType::Microservice);
    assert(files.len() == 14);
    reveal_strlit(".gitignore");
    reveal_strlit("Cargo.toml");
    reveal_strlit("DEPLOYMENT.md");
    reveal_strlit("README.md");
    reveal_strlit("health.rs");
    reveal_strlit("integration_test.rs");
    reveal_strlit("main.rs");
    reveal_strlit("mod.rs");
    reveal_strlit("oxidite.toml");
    reveal_strlit("src");
    reveal_strlit("src/config");
    reveal_strlit("src/config/mod.rs");
    reveal_strlit("src/core");
    reveal_strlit("src/core/mod.rs");
    reveal_strlit("src/events");
    reveal_strlit("src/events/mod.rs");
    reveal_strlit("src/handlers");
    reveal_strlit("src/handlers/health.rs");
    reveal_strlit("src/handlers/mod.rs");
    reveal_strlit("src/main.rs");
    reveal_strlit("src/models");
    reveal_strlit("src/models/mod.rs");
    reveal_strlit("src/queues");
    reveal_strlit("src/queues/mod.rs");
    reveal_strlit("tests");
    reveal_strlit("tests/integration_test.rs");
    assert(files[0].0 == "tests/integration_test.rs"@);
    assert("tests/integration_test.rs"@ =~= "tests"@ + seq!['/'] + "integration_test.rs"@);
    lemma_file_in(files[0].0, dirs, 8, "integration_test.rs"@);
    assert(files[1].0 == "Cargo.toml"@);
    lemma_parent_of_plain(files[1].0);
    assert(files[2].0 == "oxidite.toml"@);
    lemma_parent_of_plain(files[2].0);
    assert(files[3].0 == "src/main.rs"@);
    assert("src/main.rs"@ =~= "src"@ + seq!['/'] + "main.rs"@);
    lemma_file_in(files[3].0, dirs, 0, "main.rs"@);
    assert(files[4].0 == "src/handlers/mod.rs"@);
    assert("src/handlers/mod.rs"@ =~= "src/handlers"@ + seq!['/'] + "mod.rs"@);
    lemma_file_in(files[4].0, dirs, 1, "mod.rs"@);
    assert(files[5].0 == "src/handlers/health.rs"@);
    assert("src/handlers/health.rs"@ =~= "src/handlers"@ + seq!['/'] + "health.rs"@);
    lemma_file_in(files[5].0, dirs, 1, "health.rs"@);
    assert(files[6].0 == "src/core/mod.rs"@);
    assert("src/core/mod.rs"@ =~= "src/core"@ + seq!['/'] + "mod.rs"@);
    lemma_file_in(files[6].0, dirs, 2, "mod.rs"@);
    assert(files[7].0 == "src/events/mod.rs"@);
    assert("src/events/mod.rs"@ =~= "src/events"@ + seq!['/'] + "mod.rs"@);
    lemma_file_in(files[7].0, dirs, 3, "mod.rs"@);
    assert(files[8].0 == "src/queues/mod.rs"@);
    assert("src/queues/mod.rs"@ =~= "src/queues"@ + seq!['/'] + "mod.rs"@);
    lemma_file_in(files[8].0, dirs, 4, "mod.rs"@);
    assert(files[9].0 == "src/models/mod.rs"@);
    assert("src/models/mod.rs"@ =~= "src/models"@ + seq!['/'] + "mod.rs"@);
    lemma_file_in(files[9].0, dirs, 5, "mod.rs"@);
    assert(files[10].0 == "src/config/mod.rs"@);
    assert("src/config/mod.rs"@ =~= "src/config"@ + seq!['/'] + "mod.rs"@);
    lemma_file_in(files[10].0, dirs, 6, "mod.rs"@);
    assert(files[11].0 == "DEPLOYMENT.md"@);
    lemma_parent_of_plain(files[11].0);
    assert(files[12].0 == "README.md"@);
    lemma_parent_of_plain(files[12].0);
    assert(files[13].0 == ".gitignore"@);
    lemma_parent_of_plain(files[13].0);
    assert forall|i: int| 0 <= i < files.len() implies lands_in(#[trigger] files[i].0, dirs) by {
        assert(i == 0 || i == 1 || i == 2 || i == 3 || i == 4 || i == 5 || i == 6 || i == 7 || i == 8 || i == 9 || i == 10 || i == 11 || i == 12 || i == 13);
    }
}

proof fn lemma_serverless_files_fit(name: Seq<char>)
    ensures
        files_fit(project_files_of(name, ProjectType::Serverless), project_dirs_of(ProjectType::Serverless)),
{
    let files = project_files_of(name, ProjectType::Serverless);
    let dirs = project_dirs_of(ProjectType::Serverless);
    assert(files.len() == 20);
    reveal_strlit(".env.example");
    reveal_strlit(".gitignore");
    reveal_strlit("Cargo.toml");
    reveal_strlit("DEPLOYMENT.md");
    reveal_strlit("README.md");
    reveal_strlit("api.rs");
    reveal_strlit("config");
    reveal_strlit("config/dev.toml");
    reveal_strlit("config/prod.toml");
    reveal_strlit("config/staging.toml");
    reveal_strlit("cron.rs");
    reveal_strlit("dev.toml");
    reveal_strlit("event.rs");
    reveal_strlit("infra/aws");
    reveal_strlit("infra/aws/main.tf");
    reveal_strlit("infra/aws/variables.tf");
    reveal_strlit("infra/cloudflare");
    reveal_strlit("infra/cloudflare/wrangler.toml");
    reveal_strlit("integration_test.rs");
    reveal_strlit("main.rs");
    reveal_strlit("main.tf");
    reveal_strlit("mod.rs");
    reveal_strlit("oxidite.toml");
    reveal_strlit("prod.toml");
    reveal_strlit("src");
    reveal_strlit("src/config");
    reveal_strlit("src/config/mod.rs");
    reveal_strlit("src/core");
    reveal_strlit("src/core/mod.rs");
    reveal_strlit("src/handlers");
    reveal_strlit("src/handlers/api.rs");
    reveal_strlit("src/handlers/cron.rs");
    reveal_strlit("src/handlers/event.rs");
    reveal_strlit("src/handlers/mod.rs");
    reveal_strlit("src/main.rs");
    reveal_strlit("staging.toml");
    reveal_strlit("tests");
    reveal_strlit("tests/integration_test.rs");
    reveal_strlit("variables.tf");
    reveal_strlit("wrangler.toml");
    assert(files[0].0 == "tests/integration_test.rs"@);
    assert("tests/integration_test.rs"@ =~= "tests"@ + seq!['/'] + "integration_test.rs"@);
    lemma_file_in(files[0].0, dirs, 4, "integration_test.rs"@);
    assert(files[1].0 == "Cargo.toml"@);
    lemma_parent_of_plain(files[1].0);
    assert(files[2].0 == "oxidite.toml"@);
    lemma_parent_of_plain(files[2].0);
    assert(files[3].0 == "src/main.rs"@);
    assert("src/main.rs"@ =~= "src"@ + seq!['/'] + "main.rs"@);
    lemma_file_in(files[3].0, dirs, 0, "main.rs"@);
    assert(files[4].0 == "src/handlers/mod.rs"@);
    assert("src/handlers/mod.rs"@ =~= "src/handlers"@ + seq!['/'] + "mod.rs"@);
    lemma_file_in(files[4].0, dirs, 1, "mod.rs"@);
    assert(files[5].0 == "src/handlers/api.rs"@);
    assert("src/handlers/api.rs"@ =~= "src/handlers"@ + seq!['/'] + "api.rs"@);
    lemma_file_in(files[5].0, dirs, 1, "api.rs"@);
    assert(files[6].0 == "src/handlers/event.rs"@);
    assert("src/handlers/event.rs"@ =~= "src/handlers"@ + seq!['/'] + "event.rs"@);
    lemma_file_in(files[6].0, dirs, 1, "event.rs"@);
    assert(files[7].0 == "src/handlers/cron.rs"@);
    assert("src/handlers/cron.rs"@ =~= "src/handlers"@ + seq!['/'] + "cron.rs"@);
    lemma_file_in(files[7].0, dirs, 1, "cron.rs"@);
    assert(files[8].0 == "src/core/mod.rs"@);
    assert("src/core/mod.rs"@ =~= "src/core"@ + seq!['/'] + "mod.rs"@);
    lemma_file_in(files[8].0, dirs, 2, "mod.rs"@);
    assert(files[9].0 == "src/config/mod.rs"@);
    assert("src/config/mod.rs"@ =~= "src/config"@ + seq!['/'] + "mod.rs"@);
    lemma_file_in(files[9].0, dirs, 3, "mod.rs"@);
    assert(files[10].0 == "infra/aws/main.tf"@);
    assert("infra/aws/main.tf"@ =~= "infra/aws"@ + seq!['/'] + "main.tf"@);
    lemma_file_in(files[10].0, dirs, 6, "main.tf"@);
    assert(files[11].0 == "infra/aws/variables.tf"@);
    assert("infra/aws/variables.tf"@ =~= "infra/aws"@ + seq!['/'] + "variables.tf"@);
    lemma_file_in(files[11].0, dirs, 6, "variables.tf"@);
    assert(files[12].0 == "infra/cloudflare/wrangler.toml"@);
    assert("infra/cloudflare/wrangler.toml"@ =~= "infra/cloudflare"@ + seq!['/'] + "wrangler.toml"@);
    lemma_file_in(files[12].0, dirs, 7, "wrangler.toml"@);
    assert(files[13].0 == "config/dev.toml"@);
    assert("config/dev.toml"@ =~= "config"@ + seq!['/'] + "dev.toml"@);
    lemma_file_in(files[13].0, dirs, 8, "dev.toml"@);
    assert(files[14].0 == "config/staging.toml"@);
    assert("config/staging.toml"@ =~= "config"@ + seq!['/'] + "staging.toml"@);
    lemma_file_in(files[14].0, dirs, 8, "staging.toml"@);
    assert(files[15].0 == "config/prod.toml"@);
    assert("config/prod.toml"@ =~= "config"@ + seq!['/'] + "prod.toml"@);
    lemma_file_in(files[15].0, dirs, 8, "prod.toml"@);
    assert(files[16].0 == ".env.example"@);
    lemma_parent_of_plain(files[16].0);
    assert(files[17].0 == "DEPLOYMENT.md"@);
    lemma_parent_of_plain(files[17].0);
    assert(files[18].0 == "README.md"@);
    lemma_parent_of_plain(files[18].0);
    assert(files[19].0 == ".gitignore"@);
    lemma_parent_of_plain(files[19].0);
    assert forall|i: int| 0 <= i < files.len() implies lands_in(#[trigger] files[i].0, dirs) by {
        assert(i == 0 || i == 1 || i == 2 || i == 3 || i == 4 || i == 5 || i == 6 || i == 7 || i == 8 || i == 9 || i == 10 || i == 11 || i == 12 || i == 13 || i == 14 || i == 15 || i == 16 || i == 17 || i == 18 || i == 19);
    }
}

/// Every file of a new project lands at its top or in one of the directories
/// created for it beforehand.
pub proof fn lemma_project_files_fit_dirs(name: Seq<char>, t: ProjectType)
    ensures
        files_fit(project_files_of(name, t), project_dirs_of(t)),
{
    match t {
        ProjectType::Fullstack => lemma_fullstack_files_fit(name),
        ProjectType::Api => lemma_api_files_fit(name),
        ProjectType::Microservice => lemma_microservice_files_fit(name),
        ProjectType::Serverless => lemma_serverless_files_fit(name),
    }
}

} // verus!
