use oxidite::cli::maintenance::{deploy_target, DeployTarget};
use oxidite::cli::project::{project_dirs, resolve_project_type, ProjectType};
use oxidite::cli::scaffold::{
    create_boilerplate, create_config_toml, create_deployment_doc, create_main_rs, create_microservice_boilerplate,
    create_readme, create_serverless_boilerplate, create_test_file, deploy_artifacts, fill_in_name, project_files,
};
use oxidite::text::replace_all;

fn project_type_arg(p_type: ProjectType) -> &'static str {
    match p_type {
        ProjectType::Fullstack => "fullstack",
        ProjectType::Api => "api",
        ProjectType::Microservice => "microservice",
        ProjectType::Serverless => "serverless",
    }
}

fn project_name(p_type: ProjectType) -> &'static str {
    match p_type {
        ProjectType::Fullstack => "test-fullstack",
        ProjectType::Api => "test-api",
        ProjectType::Microservice => "test-microservice",
        ProjectType::Serverless => "test-serverless",
    }
}

/// Builds the project the way `oxidite new <name> --type <kind>` lays it out
/// and checks what can be checked without a compiler: every file lands in a
/// directory that was created, no path is written twice, the manifest is
/// valid TOML naming the project, and no placeholder is left behind.
fn check_generated_project(p_type: ProjectType) {
    let name = project_name(p_type);
    let resolved = resolve_project_type(Some(project_type_arg(p_type)), None);
    assert_eq!(resolved, Ok(Some(p_type)));

    let dirs = project_dirs(p_type);
    let files = project_files(name, p_type);
    let mut seen: Vec<&str> = Vec::new();
    for (path, contents) in &files {
        match path.rfind('/') {
            Some(slash) => assert!(dirs.iter().any(|d| d == &path[..slash]), "{path} has no directory"),
            None => {}
        }
        assert!(!seen.contains(&path.as_str()), "{path} written twice");
        seen.push(path);
        assert!(!contents.contains("PROJECT_NAME"), "{path} keeps the placeholder");
    }

    let manifest = &files.iter().find(|(p, _)| p == "Cargo.toml").unwrap().1;
    let parsed: toml::Value = toml::from_str(manifest).expect("manifest parses");
    assert_eq!(parsed["package"]["name"].as_str(), Some(name));
    assert_eq!(parsed["dev-dependencies"]["oxidite-testing"].as_str(), Some("2.3.4"));

    let config = &files.iter().find(|(p, _)| p == "oxidite.toml").unwrap().1;
    let parsed: toml::Value = toml::from_str(config).expect("oxidite.toml parses");
    assert_eq!(parsed["server"]["port"].as_integer(), Some(8080));
}

#[test]
fn test_fullstack_project_compiles() {
    check_generated_project(ProjectType::Fullstack);
}

#[test]
fn test_api_project_compiles() {
    check_generated_project(ProjectType::Api);
}

#[test]
fn test_microservice_project_compiles() {
    check_generated_project(ProjectType::Microservice);
}

#[test]
fn test_serverless_project_compiles() {
    check_generated_project(ProjectType::Serverless);
}

#[test]
fn project_file_lists_per_kind() {
    let paths = |t: ProjectType| -> Vec<String> { project_files("app", t).into_iter().map(|(p, _)| p).collect() };
    let fullstack = paths(ProjectType::Fullstack);
    assert_eq!(fullstack.len(), 19);
    assert_eq!(fullstack[0], "tests/integration_test.rs");
    assert_eq!(fullstack[1], "Cargo.toml");
    assert_eq!(fullstack[2], "oxidite.toml");
    assert_eq!(fullstack[3], "src/main.rs");
    assert_eq!(fullstack[12], "src/routes/mod.rs");
    assert_eq!(fullstack[15], "templates/index.html");
    assert_eq!(&fullstack[16..], ["DEPLOYMENT.md", "README.md", ".gitignore"]);
    assert_eq!(paths(ProjectType::Api).len(), 16);
    assert_eq!(paths(ProjectType::Microservice).len(), 14);
    assert_eq!(paths(ProjectType::Serverless).len(), 20);
    assert_eq!(create_microservice_boilerplate().len(), 7);
    assert_eq!(create_serverless_boilerplate("x").len(), 13);
    assert_eq!(create_boilerplate("x", ProjectType::Api).len(), 9);
}

#[test]
fn readme_names_project_and_kind() {
    let readme = create_readme("shop", ProjectType::Api);
    assert!(readme.starts_with("# shop\n\nGenerated by `oxidite new` as an Oxidite **API service**.\n"));
    assert!(readme.contains("cargo install oxidite-cli\noxidite migrate\noxidite dev\n```"));
    assert!(readme.contains("| Fly.io / Railway           |"));
    assert!(readme.ends_with(
        "| `oxidite migrate`    | Run pending migrations               |\n| `oxidite make model` | Scaffold a new model                 |\n"
    ));
    let serverless = create_readme("fn1", ProjectType::Serverless);
    assert!(serverless.contains("**serverless function**"));
    assert!(serverless.contains("cargo install oxidite-cli\noxidite dev\n```"));
    assert!(serverless.contains("| `oxidite run script.rs` | Run a standalone Rust script      |"));
}

#[test]
fn deployment_doc_fills_in_name() {
    let doc = create_deployment_doc("shop", ProjectType::Fullstack);
    assert!(doc.starts_with("# Deploying shop\n\nThis guide covers deployment options for the shop Oxidite project.\n"));
    assert!(doc.contains("fly launch --name shop"));
    assert!(!doc.contains("PROJECT_NAME"));
    assert!(doc.ends_with("(max 10–20 connections per instance)\n"));
}

#[test]
fn config_and_entry_point_per_kind() {
    let config = create_config_toml(ProjectType::Microservice);
    assert!(config.starts_with("# Oxidite Configuration\n"));
    assert!(config.contains("[queue]\nredis_url = \"redis://localhost\""));
    assert!(create_config_toml(ProjectType::Api).contains("[database]\nurl = \"sqlite://./data.db\""));
    assert!(create_config_toml(ProjectType::Serverless).contains("[handlers.scheduled_task]"));
    assert!(create_main_rs(ProjectType::Serverless).starts_with("// Oxidite Serverless Function — entry point."));
    assert!(create_main_rs(ProjectType::Api).starts_with("// API service entry point."));
    assert!(create_test_file(ProjectType::Microservice).contains("async fn test_status_endpoint()"));
}

#[test]
fn serverless_infrastructure_carries_name() {
    let files = create_serverless_boilerplate("orders");
    let tf = &files.iter().find(|(p, _)| p == "infra/aws/main.tf").unwrap().1;
    assert!(tf.starts_with("# Terraform for orders — Oxidite serverless functions."));
    assert!(tf.contains("default = \"orders\""));
    let wrangler = &files.iter().find(|(p, _)| p == "infra/cloudflare/wrangler.toml").unwrap().1;
    assert!(wrangler.starts_with("name = \"orders\"\nmain = \"src/main.rs\"\n"));
}

#[test]
fn replace_all_matches_std_replace() {
    let cases = [
        ("aXbXc", "X", "yy"),
        ("aaa", "aa", "b"),
        ("PROJECT_NAMEPROJECT_NAME", "PROJECT_NAME", "n"),
        ("none here", "zz", "q"),
        ("", "a", "b"),
        ("héllo wörld", "ö", "o"),
    ];
    for (s, p, w) in cases {
        assert_eq!(replace_all(s, p, w), s.replace(p, w));
    }
    assert_eq!(fill_in_name("fly launch --name PROJECT_NAME", "app"), "fly launch --name app");
}

#[test]
fn deploy_artifacts_per_target() {
    let names = |t: DeployTarget| -> Vec<String> { deploy_artifacts(t).into_iter().map(|(p, _)| p).collect() };
    assert_eq!(names(DeployTarget::AwsLambda), ["Dockerfile", "deploy-aws.sh", "lambda.tf"]);
    assert_eq!(names(DeployTarget::Docker), ["Dockerfile", "docker-compose.yml"]);
    assert_eq!(names(DeployTarget::Cloudflare), ["wrangler.toml"]);
    let lambda = deploy_artifacts(deploy_target("aws-lambda").unwrap());
    assert!(lambda[0].1.starts_with("FROM rust:1.85-alpine AS builder\n"));
    assert!(lambda[1].1.starts_with("#!/usr/bin/env bash\nset -euo pipefail\n"));
    let docker = deploy_artifacts(DeployTarget::Docker);
    assert!(docker[0].1.contains("EXPOSE 8080"));
    assert!(docker[1].1.contains("- OXIDITE_ENV=production"));
    let cf = deploy_artifacts(DeployTarget::Cloudflare);
    assert!(cf[0].1.starts_with("name = \"oxidite-function\"\n"));
}
