//! Code generators: the file that each `make` command writes, for a type
//! name that it checks first.
use vstd::prelude::*;
use crate::cli::naming::{
    plural_table_name, pluralize_table_name, snake_case, to_snake_case, type_name_check,
    validate_rust_type_name, NameError,
};
use crate::text::{concat, owned, push_str};

verus! {

/// A template's pieces with the arguments between them.
pub open spec fn fill(parts: Seq<Seq<char>>, args: Seq<Seq<char>>) -> Seq<char>
    decreases args.len(),
{
    if args.len() == 0 || parts.len() == 0 {
        if parts.len() == 0 {
            Seq::empty()
        } else {
            parts[0]
        }
    } else {
        fill(parts.drop_last(), args.drop_last()) + args.last() + parts.last()
    }
}

pub open spec fn strs(v: Seq<&str>) -> Seq<Seq<char>> {
    v.map_values(|s: &str| s@)
}

/// Fills a template whose pieces surround the arguments.
pub fn fill_template(parts: &Vec<&str>, args: &Vec<&str>) -> (r: String)
    requires
        parts@.len() == args@.len() + 1,
    ensures
        r@ == fill(strs(parts@), strs(args@)),
{
    let mut r = owned(parts[0]);
    let mut i: usize = 0;
    while i < args.len()
        invariant
            i <= args@.len(),
            parts@.len() == args@.len() + 1,
            r@ == fill(strs(parts@).take(i + 1), strs(args@).take(i as int)),
        decreases args.len() - i,
    {
        push_str(&mut r, args[i]);
        push_str(&mut r, parts[i + 1]);
        proof {
            let p = strs(parts@).take(i + 2);
            let a = strs(args@).take(i + 1);
            assert(p.drop_last() =~= strs(parts@).take(i + 1));
            assert(a.drop_last() =~= strs(args@).take(i as int));
        }
        i = i + 1;
    }
    assert(strs(parts@).take((args@.len() + 1) as int) =~= strs(parts@));
    assert(strs(args@).take(args@.len() as int) =~= strs(args@));
    r
}

/// A generated file: the directory it goes into, its path and its text.
#[derive(Debug)]
pub struct GeneratedFile {
    pub dir: String,
    pub path: String,
    pub content: String,
}

/// Where a generator writes the file for a snake-cased name.
pub open spec fn generated_path(dir: Seq<char>, stem: Seq<char>) -> Seq<char> {
    dir + "/"@ + stem + ".rs"@
}

fn file_path(dir: &str, stem: &str) -> (r: String)
    ensures
        r@ == generated_path(dir@, stem@),
{
    let mut r = concat(dir, "/");
    push_str(&mut r, stem);
    push_str(&mut r, ".rs");
    r
}
/// Piece 1 of the model template.
pub const MODEL_0: &'static str = r#"use serde::{Deserialize, Serialize};
use oxidite_db::{Model, sqlx};

#[derive(Debug, Clone, Serialize, Deserialize, Model, sqlx::FromRow)]
#[model(table = ""#;
/// Piece 2 of the model template.
pub const MODEL_1: &'static str = r#"")]
pub struct "#;
/// Piece 3 of the model template.
pub const MODEL_2: &'static str = r#" {
    pub id: i64,
    // Add your fields here, e.g.:
    // pub name: String,
    // pub created_at: i64,
    // pub updated_at: i64,
    // pub deleted_at: Option<i64>,
}
"#;

/// The text of a model file for type `name` and table `table`.
pub open spec fn model_text(table: Seq<char>, name: Seq<char>) -> Seq<char> {
    fill(seq![MODEL_0@, MODEL_1@, MODEL_2@], seq![table, name])
}
/// Piece 1 of the controller template.
pub const CONTROLLER_0: &'static str = r#"use oxidite::prelude::*;

pub struct "#;
/// Piece 2 of the controller template.
pub const CONTROLLER_1: &'static str = r#";

impl "#;
/// Piece 3 of the controller template.
pub const CONTROLLER_2: &'static str = r#" {
    pub async fn index(_req: Request) -> Result<Response> {
        Ok(Response::json(serde_json::json!({
            "message": "List endpoint"
        })))
    }

    pub async fn show(_req: Request) -> Result<Response> {
        Ok(Response::json(serde_json::json!({
            "message": "Show endpoint"
        })))
    }

    pub async fn create(_req: Request) -> Result<Response> {
        Ok(Response::json(serde_json::json!({
            "message": "Create endpoint"
        })))
    }

    pub async fn update(_req: Request) -> Result<Response> {
        Ok(Response::json(serde_json::json!({
            "message": "Update endpoint"
        })))
    }

    pub async fn destroy(_req: Request) -> Result<Response> {
        Ok(Response::json(serde_json::json!({
            "message": "Destroy endpoint"
        })))
    }
}
"#;

/// The text of a controller file for type `name`.
pub open spec fn controller_text(name: Seq<char>) -> Seq<char> {
    fill(seq![CONTROLLER_0@, CONTROLLER_1@, CONTROLLER_2@], seq![name, name])
}
/// Piece 1 of the middleware template.
pub const MIDDLEWARE_0: &'static str = r#"use oxidite_core::{Error, OxiditeRequest, OxiditeResponse};
use std::future::Future;
use std::pin::Pin;
use std::task::{Context, Poll};
use tower::{Layer, Service};

#[derive(Clone)]
pub struct "#;
/// Piece 2 of the middleware template.
pub const MIDDLEWARE_1: &'static str = r#"<S> {
    inner: S,
}

impl<S> "#;
/// Piece 3 of the middleware template.
pub const MIDDLEWARE_2: &'static str = r#"<S> {
    pub fn new(inner: S) -> Self {
        Self { inner }
    }
}

impl<S> Service<OxiditeRequest> for "#;
/// Piece 4 of the middleware template.
pub const MIDDLEWARE_3: &'static str = r#"<S>
where
    S: Service<OxiditeRequest, Response = OxiditeResponse, Error = Error> + Clone + Send + 'static,
    S::Future: Send + 'static,
{
    type Response = S::Response;
    type Error = S::Error;
    type Future = Pin<Box<dyn Future<Output = Result<Self::Response, Self::Error>> + Send>>;

    fn poll_ready(&mut self, cx: &mut Context<'_>) -> Poll<Result<(), Self::Error>> {
        self.inner.poll_ready(cx)
    }

    fn call(&mut self, req: OxiditeRequest) -> Self::Future {
        let mut inner = self.inner.clone();

        Box::pin(async move {
            // Pre-processing
            println!("Before request");

            let response = inner.call(req).await?;

            // Post-processing
            println!("After request");

            Ok(response)
        })
    }
}

#[derive(Clone)]
pub struct "#;
/// Piece 5 of the middleware template.
pub const MIDDLEWARE_4: &'static str = r#"Layer;

impl "#;
/// Piece 6 of the middleware template.
pub const MIDDLEWARE_5: &'static str = r#"Layer {
    pub fn new() -> Self {
        Self
    }
}

impl<S> Layer<S> for "#;
/// Piece 7 of the middleware template.
pub const MIDDLEWARE_6: &'static str = r#"Layer {
    type Service = "#;
/// Piece 8 of the middleware template.
pub const MIDDLEWARE_7: &'static str = r#"<S>;

    fn layer(&self, inner: S) -> Self::Service {
        "#;
/// Piece 9 of the middleware template.
pub const MIDDLEWARE_8: &'static str = r#"::<S>::new(inner)
    }
}
"#;

/// The text of a middleware file for type `name`.
pub open spec fn middleware_text(name: Seq<char>) -> Seq<char> {
    fill(seq![MIDDLEWARE_0@, MIDDLEWARE_1@, MIDDLEWARE_2@, MIDDLEWARE_3@, MIDDLEWARE_4@, MIDDLEWARE_5@, MIDDLEWARE_6@, MIDDLEWARE_7@, MIDDLEWARE_8@], seq![name, name, name, name, name, name, name, name])
}
/// Piece 1 of the service template.
pub const SERVICE_0: &'static str = r#"use serde::{Deserialize, Serialize};

#[derive(Debug, Clone, Serialize, Deserialize)]
pub struct "#;
/// Piece 2 of the service template.
pub const SERVICE_1: &'static str = r#"Input {
    // Add input fields
}

#[derive(Debug, Clone, Serialize, Deserialize)]
pub struct "#;
/// Piece 3 of the service template.
pub const SERVICE_2: &'static str = r#"Output {
    // Add output fields
}

#[derive(Clone)]
pub struct "#;
/// Piece 4 of the service template.
pub const SERVICE_3: &'static str = r#"Service;

impl "#;
/// Piece 5 of the service template.
pub const SERVICE_4: &'static str = r#"Service {
    pub fn new() -> Self {
        Self
    }

    pub async fn execute(
        &self,
        _input: "#;
/// Piece 6 of the service template.
pub const SERVICE_5: &'static str = r#"Input,
    ) -> Result<"#;
/// Piece 7 of the service template.
pub const SERVICE_6: &'static str = r#"Output, Box<dyn std::error::Error>> {
        Err("Not implemented".into())
    }
}
"#;

/// The text of a service file for type `name`.
pub open spec fn service_text(name: Seq<char>) -> Seq<char> {
    fill(seq![SERVICE_0@, SERVICE_1@, SERVICE_2@, SERVICE_3@, SERVICE_4@, SERVICE_5@, SERVICE_6@], seq![name, name, name, name, name, name])
}
/// Piece 1 of the validator template.
pub const VALIDATOR_0: &'static str = r#"use serde_json::Value;
use std::collections::HashMap;

pub struct "#;
/// Piece 2 of the validator template.
pub const VALIDATOR_1: &'static str = r#"Validator;

impl "#;
/// Piece 3 of the validator template.
pub const VALIDATOR_2: &'static str = r#"Validator {
    pub fn validate(data: &Value) -> Result<(), ValidationError> {
        let mut errors = HashMap::new();

        if data.is_null() {
            errors.insert("body".to_string(), "Body must not be null".to_string());
        }

        if !errors.is_empty() {
            return Err(ValidationError::new(errors));
        }

        Ok(())
    }
}

#[derive(Debug)]
pub struct ValidationError {
    pub errors: HashMap<String, String>,
}

impl ValidationError {
    pub fn new(errors: HashMap<String, String>) -> Self {
        Self { errors }
    }
}

impl std::fmt::Display for ValidationError {
    fn fmt(&self, f: &mut std::fmt::Formatter<'_>) -> std::fmt::Result {
        write!(f, "Validation failed: {:?}", self.errors)
    }
}

impl std::error::Error for ValidationError {}
"#;

/// The text of a validator file for type `name`.
pub open spec fn validator_text(name: Seq<char>) -> Seq<char> {
    fill(seq![VALIDATOR_0@, VALIDATOR_1@, VALIDATOR_2@], seq![name, name])
}
/// Piece 1 of the job template.
pub const JOB_0: &'static str = r#"use serde::{Deserialize, Serialize};

#[derive(Debug, Clone, Serialize, Deserialize)]
pub struct "#;
/// Piece 2 of the job template.
pub const JOB_1: &'static str = r#"Job {
    pub id: String,
    // Add job payload fields
}

impl "#;
/// Piece 3 of the job template.
pub const JOB_2: &'static str = r#"Job {
    pub async fn handle(&self) -> Result<(), Box<dyn std::error::Error>> {
        // Add background processing logic
        Ok(())
    }
}
"#;

/// The text of a job file for type `name`.
pub open spec fn job_text(name: Seq<char>) -> Seq<char> {
    fill(seq![JOB_0@, JOB_1@, JOB_2@], seq![name, name])
}
/// Piece 1 of the policy template.
pub const POLICY_0: &'static str = r#"pub struct "#;
/// Piece 2 of the policy template.
pub const POLICY_1: &'static str = r#"Policy;

impl "#;
/// Piece 3 of the policy template.
pub const POLICY_2: &'static str = r#"Policy {
    pub fn can_view(_user_id: i64, _resource_owner_id: i64) -> bool {
        // Add authorization logic
        true
    }

    pub fn can_update(_user_id: i64, _resource_owner_id: i64) -> bool {
        // Add authorization logic
        true
    }
}
"#;

/// The text of a policy file for type `name`.
pub open spec fn policy_text(name: Seq<char>) -> Seq<char> {
    fill(seq![POLICY_0@, POLICY_1@, POLICY_2@], seq![name, name])
}
/// Piece 1 of the event template.
pub const EVENT_0: &'static str = r#"use serde::{Deserialize, Serialize};

#[derive(Debug, Clone, Serialize, Deserialize)]
pub struct "#;
/// Piece 2 of the event template.
pub const EVENT_1: &'static str = r#"Event {
    pub occurred_at: i64,
    // Add event fields
}
"#;

/// The text of a event file for type `name`.
pub open spec fn event_text(name: Seq<char>) -> Seq<char> {
    fill(seq![EVENT_0@, EVENT_1@], seq![name])
}

/// The model file for type `name`: `src/models/<snake name>.rs`, for the
/// table named by the plural of the snake-cased name.
pub fn make_model(name: &str) -> (r: Result<GeneratedFile, NameError>)
    ensures
        match type_name_check(name@) {
            Err(e) => r == Err::<GeneratedFile, NameError>(e),
            Ok(()) => r matches Ok(f) && f.dir@ == "src/models"@ && f.path@ == generated_path(
                "src/models"@,
                snake_case(name@),
            ) && f.content@ == model_text(plural_table_name(snake_case(name@)), name@),
        },
{
    match validate_rust_type_name(name) {
        Err(e) => {
            return Err(e);
        },
        Ok(()) => {},
    }
    let stem = to_snake_case(name);
    let table = pluralize_table_name(stem.as_str());
    let parts: Vec<&str> = vec![MODEL_0, MODEL_1, MODEL_2];
    let args: Vec<&str> = vec![table.as_str(), name];
    let content = fill_template(&parts, &args);
    assert(strs(parts@) =~= seq![MODEL_0@, MODEL_1@, MODEL_2@]);
    assert(strs(args@) =~= seq![table@, name@]);
    Ok(GeneratedFile { dir: owned("src/models"), path: file_path("src/models", stem.as_str()), content })
}

/// The controller file for type `name`: `src/controllers/<snake name>.rs`.
pub fn make_controller(name: &str) -> (r: Result<GeneratedFile, NameError>)
    ensures
        match type_name_check(name@) {
            Err(e) => r == Err::<GeneratedFile, NameError>(e),
            Ok(()) => r matches Ok(f) && f.dir@ == "src/controllers"@ && f.path@ == generated_path(
                "src/controllers"@,
                snake_case(name@),
            ) && f.content@ == controller_text(name@),
        },
{
    match validate_rust_type_name(name) {
        Err(e) => {
            return Err(e);
        },
        Ok(()) => {},
    }
    let stem = to_snake_case(name);
    let parts: Vec<&str> = vec![CONTROLLER_0, CONTROLLER_1, CONTROLLER_2];
    let args: Vec<&str> = vec![name, name];
    let content = fill_template(&parts, &args);
    assert(strs(parts@) =~= seq![CONTROLLER_0@, CONTROLLER_1@, CONTROLLER_2@]);
    assert(strs(args@) =~= seq![name@, name@]);
    Ok(GeneratedFile { dir: owned("src/controllers"), path: file_path("src/controllers", stem.as_str()), content })
}

/// The middleware file for type `name`: `src/middleware/<snake name>.rs`.
pub fn make_middleware(name: &str) -> (r: Result<GeneratedFile, NameError>)
    ensures
        match type_name_check(name@) {
            Err(e) => r == Err::<GeneratedFile, NameError>(e),
            Ok(()) => r matches Ok(f) && f.dir@ == "src/middleware"@ && f.path@ == generated_path(
                "src/middleware"@,
                snake_case(name@),
            ) && f.content@ == middleware_text(name@),
        },
{
    match validate_rust_type_name(name) {
        Err(e) => {
            return Err(e);
        },
        Ok(()) => {},
    }
    let stem = to_snake_case(name);
    let parts: Vec<&str> = vec![MIDDLEWARE_0, MIDDLEWARE_1, MIDDLEWARE_2, MIDDLEWARE_3, MIDDLEWARE_4, MIDDLEWARE_5, MIDDLEWARE_6, MIDDLEWARE_7, MIDDLEWARE_8];
    let args: Vec<&str> = vec![name, name, name, name, name, name, name, name];
    let content = fill_template(&parts, &args);
    assert(strs(parts@) =~= seq![MIDDLEWARE_0@, MIDDLEWARE_1@, MIDDLEWARE_2@, MIDDLEWARE_3@, MIDDLEWARE_4@, MIDDLEWARE_5@, MIDDLEWARE_6@, MIDDLEWARE_7@, MIDDLEWARE_8@]);
    assert(strs(args@) =~= seq![name@, name@, name@, name@, name@, name@, name@, name@]);
    Ok(GeneratedFile { dir: owned("src/middleware"), path: file_path("src/middleware", stem.as_str()), content })
}

/// The service file for type `name`: `src/services/<snake name>.rs`.
pub fn make_service(name: &str) -> (r: Result<GeneratedFile, NameError>)
    ensures
        match type_name_check(name@) {
            Err(e) => r == Err::<GeneratedFile, NameError>(e),
            Ok(()) => r matches Ok(f) && f.dir@ == "src/services"@ && f.path@ == generated_path(
                "src/services"@,
                snake_case(name@),
            ) && f.content@ == service_text(name@),
        },
{
    match validate_rust_type_name(name) {
        Err(e) => {
            return Err(e);
        },
        Ok(()) => {},
    }
    let stem = to_snake_case(name);
    let parts: Vec<&str> = vec![SERVICE_0, SERVICE_1, SERVICE_2, SERVICE_3, SERVICE_4, SERVICE_5, SERVICE_6];
    let args: Vec<&str> = vec![name, name, name, name, name, name];
    let content = fill_template(&parts, &args);
    assert(strs(parts@) =~= seq![SERVICE_0@, SERVICE_1@, SERVICE_2@, SERVICE_3@, SERVICE_4@, SERVICE_5@, SERVICE_6@]);
    assert(strs(args@) =~= seq![name@, name@, name@, name@, name@, name@]);
    Ok(GeneratedFile { dir: owned("src/services"), path: file_path("src/services", stem.as_str()), content })
}

/// The validator file for type `name`: `src/validators/<snake name>.rs`.
pub fn make_validator(name: &str) -> (r: Result<GeneratedFile, NameError>)
    ensures
        match type_name_check(name@) {
            Err(e) => r == Err::<GeneratedFile, NameError>(e),
            Ok(()) => r matches Ok(f) && f.dir@ == "src/validators"@ && f.path@ == generated_path(
                "src/validators"@,
                snake_case(name@),
            ) && f.content@ == validator_text(name@),
        },
{
    match validate_rust_type_name(name) {
        Err(e) => {
            return Err(e);
        },
        Ok(()) => {},
    }
    let stem = to_snake_case(name);
    let parts: Vec<&str> = vec![VALIDATOR_0, VALIDATOR_1, VALIDATOR_2];
    let args: Vec<&str> = vec![name, name];
    let content = fill_template(&parts, &args);
    assert(strs(parts@) =~= seq![VALIDATOR_0@, VALIDATOR_1@, VALIDATOR_2@]);
    assert(strs(args@) =~= seq![name@, name@]);
    Ok(GeneratedFile { dir: owned("src/validators"), path: file_path("src/validators", stem.as_str()), content })
}

/// The job file for type `name`: `src/jobs/<snake name>.rs`.
pub fn make_job(name: &str) -> (r: Result<GeneratedFile, NameError>)
    ensures
        match type_name_check(name@) {
            Err(e) => r == Err::<GeneratedFile, NameError>(e),
            Ok(()) => r matches Ok(f) && f.dir@ == "src/jobs"@ && f.path@ == generated_path(
                "src/jobs"@,
                snake_case(name@),
            ) && f.content@ == job_text(name@),
        },
{
    match validate_rust_type_name(name) {
        Err(e) => {
            return Err(e);
        },
        Ok(()) => {},
    }
    let stem = to_snake_case(name);
    let parts: Vec<&str> = vec![JOB_0, JOB_1, JOB_2];
    let args: Vec<&str> = vec![name, name];
    let content = fill_template(&parts, &args);
    assert(strs(parts@) =~= seq![JOB_0@, JOB_1@, JOB_2@]);
    assert(strs(args@) =~= seq![name@, name@]);
    Ok(GeneratedFile { dir: owned("src/jobs"), path: file_path("src/jobs", stem.as_str()), content })
}

/// The policy file for type `name`: `src/policies/<snake name>.rs`.
pub fn make_policy(name: &str) -> (r: Result<GeneratedFile, NameError>)
    ensures
        match type_name_check(name@) {
            Err(e) => r == Err::<GeneratedFile, NameError>(e),
            Ok(()) => r matches Ok(f) && f.dir@ == "src/policies"@ && f.path@ == generated_path(
                "src/policies"@,
                snake_case(name@),
            ) && f.content@ == policy_text(name@),
        },
{
    match validate_rust_type_name(name) {
        Err(e) => {
            return Err(e);
        },
        Ok(()) => {},
    }
    let stem = to_snake_case(name);
    let parts: Vec<&str> = vec![POLICY_0, POLICY_1, POLICY_2];
    let args: Vec<&str> = vec![name, name];
    let content = fill_template(&parts, &args);
    assert(strs(parts@) =~= seq![POLICY_0@, POLICY_1@, POLICY_2@]);
    assert(strs(args@) =~= seq![name@, name@]);
    Ok(GeneratedFile { dir: owned("src/policies"), path: file_path("src/policies", stem.as_str()), content })
}

/// The event file for type `name`: `src/events/<snake name>.rs`.
pub fn make_event(name: &str) -> (r: Result<GeneratedFile, NameError>)
    ensures
        match type_name_check(name@) {
            Err(e) => r == Err::<GeneratedFile, NameError>(e),
            Ok(()) => r matches Ok(f) && f.dir@ == "src/events"@ && f.path@ == generated_path(
                "src/events"@,
                snake_case(name@),
            ) && f.content@ == event_text(name@),
        },
{
    match validate_rust_type_name(name) {
        Err(e) => {
            return Err(e);
        },
        Ok(()) => {},
    }
    let stem = to_snake_case(name);
    let parts: Vec<&str> = vec![EVENT_0, EVENT_1];
    let args: Vec<&str> = vec![name];
    let content = fill_template(&parts, &args);
    assert(strs(parts@) =~= seq![EVENT_0@, EVENT_1@]);
    assert(strs(args@) =~= seq![name@]);
    Ok(GeneratedFile { dir: owned("src/events"), path: file_path("src/events", stem.as_str()), content })
}

} // verus!
