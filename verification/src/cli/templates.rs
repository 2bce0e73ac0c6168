//! The text of the files that a new project starts with.

use vstd::prelude::*;

verus! {

/// The integration test of a serverless project.
pub const TEST_FILE_SERVERLESS: &'static str = r#"use oxidite_testing::{TestRequest, TestResponse, test_router};
use oxidite::prelude::*;

#[tokio::test]
async fn test_health_endpoint() {
    let mut router = Router::new();
    router.get("/", |_req: Request| async {
        Ok(Response::json_val(json!({"status": "ok"})))
    });

    let mut server = test_router(router);
    let req = TestRequest::get("/").build_oxidite();
    let resp = server.call(req).await.unwrap();

    let test_resp = TestResponse::from_oxidite_response(resp).await;
    assert!(test_resp.is_success());
}
"#;

/// The integration tests of a microservice.
pub const TEST_FILE_MICROSERVICE: &'static str = r#"use oxidite_testing::{TestRequest, TestResponse, test_router};
use oxidite::prelude::*;

#[tokio::test]
async fn test_health_check() {
    let mut router = Router::new();
    router.get("/health", |_req: Request| async {
        Ok(Response::json_val(json!({"status": "ok"})))
    });

    let mut server = test_router(router);
    let req = TestRequest::get("/health").build_oxidite();
    let resp = server.call(req).await.unwrap();
    let test_resp = TestResponse::from_oxidite_response(resp).await;
    assert!(test_resp.is_success());
}

#[tokio::test]
async fn test_status_endpoint() {
    let mut router = Router::new();
    router.get("/api/v1/status", |_req: Request| async {
        Ok(Response::json_val(json!({
            "service": "microservice",
            "status": "ok"
        })))
    });

    let mut server = test_router(router);
    let req = TestRequest::get("/api/v1/status").build_oxidite();
    let resp = server.call(req).await.unwrap();
    let test_resp = TestResponse::from_oxidite_response(resp).await;
    assert!(test_resp.is_success());
}
"#;

/// The integration test of a fullstack or API project.
pub const TEST_FILE_STANDARD: &'static str = r#"use oxidite_testing::{TestRequest, TestResponse, test_router};
use oxidite::prelude::*;

#[tokio::test]
async fn test_health_endpoint() {
    let mut router = Router::new();
    router.get("/", || async { Ok(Response::json_val(json!({"status": "ok"}))) });

    let mut server = test_router(router);
    let req = TestRequest::get("/").build_oxidite();
    let resp = server.call(req).await.unwrap();

    let test_resp = TestResponse::from_oxidite_response(resp).await;
    assert!(test_resp.is_success());
}
"#;

/// The layout of a serverless project, as the README draws it.
pub const STRUCTURE_SERVERLESS: &'static str = r#"├── src/
│   ├── handlers/     # One file per function (api, event, cron)
│   ├── core/         # Shared domain types and business logic
│   ├── config/       # Environment-aware config loader
│   └── main.rs       # Local dev server (not used in production)
├── infra/
│   ├── aws/          # Terraform: API Gateway, Lambda, IAM
│   └── cloudflare/   # wrangler.toml for Workers deploy
├── config/           # Per-environment TOML configs
├── Cargo.toml        # Minimal deps (no template, mail, storage)
├── oxidite.toml      # Framework + provider config
└── .env.example"#;

/// The layout of a microservice, as the README draws it.
pub const STRUCTURE_MICROSERVICE: &'static str = r#"├── src/
│   ├── main.rs        # Entry point with HTTP + queue startup
│   ├── handlers/      # HTTP handlers (thin, delegate to core)
│   ├── core/          # Domain logic and business rules
│   ├── events/        # Event publishers / subscribers
│   ├── queues/        # Message consumer workers
│   ├── models/        # Data / domain models
│   └── config/        # Service configuration
├── oxidite.toml       # Framework configuration
├── migrations/        # SQL migration files
├── seeds/             # Database seed files
└── tests/             # Integration tests"#;

/// The layout of a fullstack or API project, as the README draws it.
pub const STRUCTURE_STANDARD: &'static str = r#"├── src/
│   ├── main.rs        # Application entry point
│   ├── routes/        # Route registration
│   ├── controllers/   # Request handlers
│   ├── models/        # Data models and ORM structs
│   ├── services/      # Business logic
│   ├── middleware/    # Custom middleware
│   ├── validators/    # Input validation
│   ├── jobs/          # Background jobs
│   ├── policies/      # Authorization policies
│   └── events/        # Event handlers
├── oxidite.toml       # Framework configuration
├── migrations/        # SQL migration files
├── seeds/             # Database seed files
└── tests/             # Integration tests"#;

/// The deployment table rows of a serverless project.
pub const TARGETS_SERVERLESS: &'static str = r#"| `oxidite deploy --target aws-lambda` | AWS Lambda + API Gateway |
| `oxidite deploy --target cloudflare` | Cloudflare Workers |
| `oxidite deploy --target docker`     | Container (Lambda, Cloud Run, ECS) |
| Manual deploy                        | See `DEPLOYMENT.md` for Google Cloud Functions, Azure Functions"#;

/// The deployment table rows of a fullstack project.
pub const TARGETS_FULLSTACK: &'static str = r#"| Docker                    | `docker build -t <name> . && docker run -p 8080:8080 <name>` |
| AWS ECS / App Runner      | See `DEPLOYMENT.md`                                            |
| Google Cloud Run           | See `DEPLOYMENT.md`                                            |
| Fly.io                     | `fly launch`                                                    |
| Manual VPS (DigitalOcean)  | See `DEPLOYMENT.md`                                            |"#;

/// The deployment table rows of an API project.
pub const TARGETS_API: &'static str = r#"| Docker                    | `docker build -t <name> . && docker run -p 8080:8080 <name>` |
| AWS ECS / App Runner      | See `DEPLOYMENT.md`                                            |
| Google Cloud Run           | See `DEPLOYMENT.md`                                            |
| Fly.io / Railway           | `fly launch` / `railway up`                                    |
| Kubernetes                 | See `DEPLOYMENT.md`                                            |"#;

/// The deployment table rows of a microservice.
pub const TARGETS_MICROSERVICE: &'static str = r#"| Docker                    | `docker build -t <name> . && docker run -p 8080:8080 <name>` |
| AWS ECS / Fargate         | See `DEPLOYMENT.md`                                            |
| Google Cloud Run           | See `DEPLOYMENT.md`                                            |
| Kubernetes                 | See `DEPLOYMENT.md`                                            |
| Fly.io                     | `fly launch`                                                    |"#;

/// A fixed part of a new project's README.
pub const README_HEAD: &'static str = r#"# "#;

/// A fixed part of a new project's README.
pub const README_AFTER_NAME: &'static str = r#"

Generated by `oxidite new` as an Oxidite **"#;

/// A fixed part of a new project's README.
pub const README_AFTER_KIND: &'static str = r#"**.

## Quick Start

```bash
cargo install oxidite-cli
"#;

/// A fixed part of a new project's README.
pub const README_AFTER_QUICK_START: &'static str = r#"
```

## Project Structure

```
"#;

/// A fixed part of a new project's README.
pub const README_AFTER_STRUCTURE: &'static str = r#"
```

## Deployment

Deploy anywhere — containers, serverless, or bare metal.

| Target                  | Quick Command / Guide              |
|-------------------------|-------------------------------------|
"#;

/// A fixed part of a new project's README.
pub const README_AFTER_TARGETS: &'static str = r#"

See **`DEPLOYMENT.md`** for step-by-step guides on every platform.

## Commands

| Command              | Description                          |
|----------------------|--------------------------------------|
| `oxidite dev`        | Start dev server with hot-reload     |
| `oxidite doctor`     | System health check                  |
| `oxidite deploy`     | Generate deployment artifacts        |
| "#;

/// A fixed part of a new project's README.
pub const README_TAIL: &'static str = r#"
| `oxidite make model` | Scaffold a new model                 |
"#;

/// How the README names a fullstack project.
pub const KIND_FULLSTACK: &'static str = r#"fullstack application"#;

/// How the README names an API project.
pub const KIND_API: &'static str = r#"API service"#;

/// How the README names a microservice.
pub const KIND_MICROSERVICE: &'static str = r#"microservice"#;

/// How the README names a serverless project.
pub const KIND_SERVERLESS: &'static str = r#"serverless function"#;

/// The quick-start commands of a serverless project.
pub const QUICK_START_SERVERLESS: &'static str = r#"oxidite dev"#;

/// The quick-start commands of every other kind of project.
pub const QUICK_START_STANDARD: &'static str = r#"oxidite migrate
oxidite dev"#;

/// The last command row of a serverless README.
pub const MIGRATE_ROW_SERVERLESS: &'static str = r#"`oxidite run script.rs` | Run a standalone Rust script      |"#;

/// The last command row of every other README.
pub const MIGRATE_ROW_STANDARD: &'static str = r#"`oxidite migrate`    | Run pending migrations               |"#;

/// How a serverless project is built, in its deployment guide.
pub const BUILD_SERVERLESS: &'static str = r#"### Build the binary

```bash
cargo build --release --target x86_64-unknown-linux-musl
```

For ARM/Graviton:
```bash
cargo build --release --target aarch64-unknown-linux-musl
```
"#;

/// How every other project is built, in its deployment guide.
pub const BUILD_STANDARD: &'static str = r#"### Build the binary

```bash
cargo build --release
```"#;

/// The platform guides of a serverless project; the project name stands where the placeholder is.
pub const GUIDES_SERVERLESS: &'static str = r#"## Docker (any platform)

```dockerfile
FROM rust:1.85-alpine AS builder
RUN apk add --no-cache musl-dev
WORKDIR /app
COPY Cargo.toml Cargo.lock ./
COPY src ./src
RUN cargo build --release --target x86_64-unknown-linux-musl

FROM alpine:3.19
COPY --from=builder /app/target/x86_64-unknown-linux-musl/release/PROJECT_NAME /bootstrap
CMD ["/bootstrap"]
```

```bash
docker build -t PROJECT_NAME:latest .
docker run -e OXIDITE_SERVERLESS=1 -p 8080:8080 PROJECT_NAME:latest
```

## AWS Lambda

Uses the Lambda Custom Runtime API. Package as a container image:

```bash
# Build for Lambda's Amazon Linux
cargo build --release --target x86_64-unknown-linux-musl

# Create bootstrap zip (for zip-based Lambda, not container)
cp target/x86_64-unknown-linux-musl/release/PROJECT_NAME bootstrap
zip lambda.zip bootstrap
```

For container-based Lambda, use the Dockerfile in `infra/aws/` and push to ECR.

## Google Cloud Run

```dockerfile
FROM rust:1.85-slim-bookworm AS builder
WORKDIR /app
COPY Cargo.toml Cargo.lock ./
COPY src ./src
RUN cargo build --release

FROM debian:bookworm-slim
COPY --from=builder /app/target/release/PROJECT_NAME /server
CMD ["/server"]
```

```bash
gcloud builds submit --tag gcr.io/PROJECT_ID/PROJECT_NAME
gcloud run deploy PROJECT_NAME --image gcr.io/PROJECT_ID/PROJECT_NAME --port 8080
```

## Cloudflare Workers

See `infra/cloudflare/wrangler.toml` and run:

```bash
npx wrangler deploy
```
"#;

/// The platform guides of a fullstack project; the project name stands where the placeholder is.
pub const GUIDES_FULLSTACK: &'static str = r#"## Docker

```dockerfile
FROM rust:1.85-slim-bookworm AS builder
WORKDIR /app
COPY Cargo.toml Cargo.lock ./
COPY src ./src
COPY templates ./templates
COPY public ./public
RUN cargo build --release

FROM debian:bookworm-slim
RUN apt-get update && apt-get install -y ca-certificates && rm -rf /var/lib/apt/lists/*
COPY --from=builder /app/target/release/PROJECT_NAME /app/server
COPY --from=builder /app/templates /app/templates
COPY --from=builder /app/public /app/public
WORKDIR /app
EXPOSE 8080
CMD ["/app/server"]
```

```bash
docker build -t PROJECT_NAME:latest .
docker run -p 8080:8080 -e SERVER_HOST=0.0.0.0 PROJECT_NAME:latest
```

## AWS ECS (Fargate)

1. Push the Docker image to Amazon ECR.
2. Create an ECS task definition (256 MB memory, 0.25 vCPU is sufficient for most Rust apps).
3. Deploy as an ECS service with Fargate launch type behind an Application Load Balancer.
4. Set environment variables in the task definition: `SERVER_HOST=0.0.0.0`, `OXIDITE_ENV=production`.

## Google Cloud Run

```bash
gcloud builds submit --tag gcr.io/PROJECT_ID/PROJECT_NAME
gcloud run deploy PROJECT_NAME --image gcr.io/PROJECT_ID/PROJECT_NAME --port 8080
```

## Fly.io

```bash
# Automatic Dockerfile detection
fly launch --name PROJECT_NAME
fly deploy
```

Or use a `fly.toml`:

```toml
app = "PROJECT_NAME"

[build]
  docker = "Dockerfile"

[[services]]
  internal_port = 8080
  protocol = "tcp"
  [[services.ports]]
    handlers = ["http"]
    port = 80
```

## Manual VPS (DigitalOcean, Hetzner, etc.)

```bash
# On your dev machine
cargo build --release
scp target/release/PROJECT_NAME user@host:/opt/PROJECT_NAME/server

# On the VPS — create a systemd service
cat > /etc/systemd/system/PROJECT_NAME.service << 'EOF'
[Unit]
Description=PROJECT_NAME Oxidite server

[Service]
Type=simple
User=www-data
WorkingDirectory=/opt/PROJECT_NAME
ExecStart=/opt/PROJECT_NAME/server
Environment=SERVER_HOST=0.0.0.0
Environment=SERVER_PORT=8080
Restart=always

[Install]
WantedBy=multi-user.target
EOF

systemctl enable PROJECT_NAME --now
```
"#;

/// The platform guides of every other project; the project name stands where the placeholder is.
pub const GUIDES_STANDARD: &'static str = r#"## Docker

```dockerfile
FROM rust:1.85-slim-bookworm AS builder
WORKDIR /app
COPY Cargo.toml Cargo.lock ./
COPY src ./src
RUN cargo build --release

FROM debian:bookworm-slim
RUN apt-get update && apt-get install -y ca-certificates && rm -rf /var/lib/apt/lists/*
COPY --from=builder /app/target/release/PROJECT_NAME /app/server
EXPOSE 8080
CMD ["/app/server"]
```

```bash
docker build -t PROJECT_NAME:latest .
docker run -p 8080:8080 -e SERVER_HOST=0.0.0.0 PROJECT_NAME:latest
```

## AWS ECS / App Runner

1. Push the Docker image to Amazon ECR.
2. For **App Runner**: connect your ECR repo, set port 8080, configure environment variables in the console.
3. For **ECS/Fargate**: create a task definition with 256 MB memory, deploy as a service behind ALB.

## Google Cloud Run

```bash
gcloud builds submit --tag gcr.io/PROJECT_ID/PROJECT_NAME
gcloud run deploy PROJECT_NAME --image gcr.io/PROJECT_ID/PROJECT_NAME --port 8080
```

## Fly.io

```bash
fly launch --name PROJECT_NAME
fly deploy
```

## Kubernetes

```yaml
apiVersion: apps/v1
kind: Deployment
metadata:
  name: PROJECT_NAME
spec:
  replicas: 2
  selector:
    matchLabels:
      app: PROJECT_NAME
  template:
    metadata:
      labels:
        app: PROJECT_NAME
    spec:
      containers:
      - name: server
        image: PROJECT_NAME:latest
        ports:
        - containerPort: 8080
        env:
        - name: SERVER_HOST
          value: "0.0.0.0"
        - name: OXIDITE_ENV
          value: "production"
---
apiVersion: v1
kind: Service
metadata:
  name: PROJECT_NAME
spec:
  selector:
    app: PROJECT_NAME
  ports:
  - port: 8080
```

## Railway

```bash
railway login
railway init
# Set SERVER_HOST=0.0.0.0 and SERVER_PORT=8080 in Railway dashboard
railway up
```

## Manual VPS

```bash
cargo build --release
scp target/release/PROJECT_NAME user@host:/opt/PROJECT_NAME/server

# systemd service
cat > /etc/systemd/system/PROJECT_NAME.service << 'UNIT'
[Unit]
Description=PROJECT_NAME API server
After=network.target

[Service]
Type=simple
WorkingDirectory=/opt/PROJECT_NAME
ExecStart=/opt/PROJECT_NAME/server
Environment=SERVER_HOST=0.0.0.0
Environment=SERVER_PORT=8080
Restart=always

[Install]
WantedBy=multi-user.target
UNIT
systemctl enable PROJECT_NAME --now
```
"#;

/// A fixed part of a new project's deployment guide.
pub const DEPLOY_HEAD: &'static str = r#"# Deploying "#;

/// A fixed part of a new project's deployment guide.
pub const DEPLOY_AFTER_TITLE: &'static str = r#"

This guide covers deployment options for the "#;

/// A fixed part of a new project's deployment guide.
pub const DEPLOY_AFTER_NAME: &'static str = r#" Oxidite project.

"#;

/// A fixed part of a new project's deployment guide.
pub const DEPLOY_AFTER_BUILD: &'static str = r#"
"#;

/// A fixed part of a new project's deployment guide.
pub const DEPLOY_TAIL: &'static str = r#"

## Environment Variables

| Variable | Description | Default |
|----------|-------------|---------|
| `SERVER_HOST` | Bind address | `127.0.0.1` |
| `SERVER_PORT` | Port to listen on | `8080` |
| `OXIDITE_ENV` | Environment name | `development` |
| `DATABASE_URL` | Database connection string | — |
| `JWT_SECRET` | JWT signing secret | — |
| `REDIS_URL` | Redis connection string | — |

## Health Check

Configure your platform's health check to hit `GET /api/health` (or `/` for fullstack).
The expected success status is `200 OK`.

## Logging

By default, logs go to stdout/stderr in plain text. To enable structured JSON logging,
set `OXIDITE_LOG_FORMAT=json`.

## Production Checklist

- [ ] Set `OXIDITE_ENV=production`
- [ ] Generate a strong `JWT_SECRET`
- [ ] Use a managed database (RDS, Cloud SQL, etc.) — not SQLite in production
- [ ] Enable HTTPS via your platform's load balancer or reverse proxy
- [ ] Set up a monitoring/alerting solution
- [ ] Configure database connection pooling (max 10–20 connections per instance)
"#;

/// The start of every new `oxidite.toml`.
pub const CONFIG_HEAD: &'static str = r#"# Oxidite Configuration
#
# Environment Variables — three strategies (all produce the same env::var() results):
#
# 1. [env] flat table — keys map directly to env vars:
#        [env]
#        DATABASE_URL = "postgres://..."
#        API_KEY = "secret"
#
# 2. Namespaced tables — table name becomes an UPPERCASE prefix:
#        [google]
#        client_id = "abc"        -> GOOGLE_CLIENT_ID
#        client_secret = "xyz"    -> GOOGLE_CLIENT_SECRET
#
# 3. Nested tables — flattened recursively:
#        [google.oauth]
#        client_id = "abc"        -> GOOGLE_OAUTH_CLIENT_ID
#
# .env files also work and take priority over oxidite.toml values.
# Real OS environment variables always take highest priority.
#
# All strategies are interchangeable — use whichever fits best.

[server]
host = "127.0.0.1"
port = 8080
"#;

/// The rest of the `oxidite.toml` of a fullstack or API project.
pub const CONFIG_STANDARD: &'static str = r#"
[database]
url = "sqlite://./data.db"

# Define env vars here or in a .env file. Examples:
#
# [env]
# JWT_SECRET = "change-me"
#
# [platform]
# name = "my-app"              -> PLATFORM_NAME
"#;

/// The rest of the `oxidite.toml` of a microservice.
pub const CONFIG_MICROSERVICE: &'static str = r#"
[queue]
redis_url = "redis://localhost"

# Define env vars here or in a .env file. Examples:
#
# [env]
# JWT_SECRET = "change-me"
#
# [broker]
# url = "redis://localhost"    -> BROKER_URL
"#;

/// The rest of the `oxidite.toml` of a serverless project.
pub const CONFIG_SERVERLESS: &'static str = r#"
# Serverless-specific configuration.
# Environment overrides live in config/dev.toml, config/staging.toml, config/prod.toml
# so they can be checked in safely without .env files.

[provider]
name = "aws"
region = "us-east-1"

# Each handler can be deployed as its own Lambda function.
# Define memory, timeout, and triggers per handler here.
[handlers.api]
memory = 512
timeout = 30
triggers = ["http"]

[handlers.event_processor]
memory = 1024
timeout = 60
triggers = ["sqs"]

[handlers.scheduled_task]
memory = 256
timeout = 120
triggers = ["cron"]

[env]
LOG_LEVEL = "info"
"#;

/// The `src/main.rs` of a fullstack project.
pub const MAIN_FULLSTACK: &'static str = r#"// Application entry point.
//
// This loads configuration, registers routes, applies middleware,
// and starts the HTTP server — in that order.
//
// ── Boot sequence ─────────────────────────────────────────────────────
//   Config  ──>  Router  ──>  Middleware  ──>  Server
// ──────────────────────────────────────────────────────────────────────
//
// Two styles are supported:
//
//   1. Application builder (recommended):
//        Application::new(config)  →  app.router_mut().get(...)  →  app.run()
//
//   2. Manual (drop-in replacement, same APIs as before):
//        Router::new()  →  router.get(...)  →  Server::new(router).listen(addr)
//
// Both produce the same result. Mix and match freely.

use oxidite::prelude::*;
use oxidite::template::serve_static;

// Each module maps to a directory under `src/`.
// Use `oxidite make <kind> <name>` to scaffold new modules.
mod routes;
mod controllers;
mod middleware;
mod models;
mod services;
mod validators;
mod jobs;
mod policies;
mod events;

#[tokio::main]
async fn main() -> Result<()> {
    // ── 1. Config ──────────────────────────────────────────────────────
    // Load configuration from oxidite.toml, .env, and OS env overrides.
    let config = Config::load()
        .map_err(|e| Error::InternalServerError(e.to_string()))?;

    // ── 2. Router ──────────────────────────────────────────────────────
    // Application coordinates the boot sequence automatically.
    // It reads server.host / server.port from Config when you call run().
    let mut app = Application::new(config);
    routes::register(app.router_mut());

    // Serve static files from `public/` as a catch-all fallback.
    //   GET /css/style.css    ->  public/css/style.css
    //   GET /images/logo.svg  ->  public/images/logo.svg
    app.router_mut().get("/*", serve_static);

    // ── 3. Middleware ──  4. Server ────────────────────────────────────
    // To apply middleware (e.g. Logger), extract the router first:
    //   let router = app.into_router();
    //   let server = Server::new(Logger::new(router));
    //
    // For simple cases without middleware, app.run() is all you need:
    println!("Server running on http://{}:{}",
        app.config().server.host, app.config().server.port);
    app.run().await
}
"#;

/// The `src/main.rs` of a microservice.
pub const MAIN_MICROSERVICE: &'static str = r#"// Microservice entry point.
//
// Focused, independently-deployable service with HTTP handlers,
// event consumers, and queue workers. No MVC boilerplate.
//
// ── Boot sequence ─────────────────────────────────────────────────────
//   Config  ──>  Router  ──>  Middleware  ──>  Server
// ──────────────────────────────────────────────────────────────────────

use oxidite::prelude::*;
use tracing::info;

mod handlers;
mod core;
mod events;
mod queues;
mod models;
mod config;

#[tokio::main]
async fn main() -> Result<()> {
    tracing_subscriber::fmt()
        .with_env_filter(
            tracing_subscriber::EnvFilter::try_from_default_env()
                .unwrap_or_else(|_| "info".into()),
        )
        .init();

    // ── 1. Config ──────────────────────────────────────────────────────
    let config = Config::load()
        .map_err(|e| Error::InternalServerError(e.to_string()))?;

    // Start background queue consumers before accepting HTTP traffic.
    queues::register().await;

    // ── 2. Router ──────────────────────────────────────────────────────
    let mut app = Application::new(config);
    handlers::routes(app.router_mut());

    // ── 3. Middleware ──  4. Server ────────────────────────────────────
    info!("Microservice listening on http://{}:{}",
        app.config().server.host, app.config().server.port);
    app.run().await
}
"#;

/// The `src/main.rs` of an API project.
pub const MAIN_API: &'static str = r#"// API service entry point.
//
// ── Boot sequence ─────────────────────────────────────────────────────
//   Config  ──>  Router  ──>  Middleware  ──>  Server
// ──────────────────────────────────────────────────────────────────────
//
// Application builder (recommended):
//   Application::new(config)  →  app.router_mut().get(...)  →  app.run()
//
// Manual equivalent (still works):
//   Router::new()  →  router.get(...)  →  Server::new(router).listen(addr)

use oxidite::prelude::*;

mod routes;
mod controllers;
mod middleware;
mod models;
mod services;
mod validators;
mod jobs;
mod policies;
mod events;

#[tokio::main]
async fn main() -> Result<()> {
    // ── 1. Config ──────────────────────────────────────────────────────
    let config = Config::load()
        .map_err(|e| Error::InternalServerError(e.to_string()))?;
    let host = config.server.host.clone();
    let port = config.server.port;

    // ── 2. Router ──────────────────────────────────────────────────────
    let mut app = Application::new(config);
    routes::register(app.router_mut());

    // ── 3. Middleware ──  4. Server ────────────────────────────────────
    // With middleware: let router = app.into_router();
    //                 Server::new(Logger::new(router)).listen(addr).await
    //
    // Without middleware, app.run() reads host/port from Config:
    println!("Server running on http://{host}:{port}");
    app.run().await
}
"#;

/// The `src/main.rs` of a serverless project.
pub const MAIN_SERVERLESS: &'static str = r#"// Oxidite Serverless Function — entry point.
//
// Handlers live in src/handlers/ — each file can be independently deployed.
// main() is for local development only; production uses OXIDITE_SERVERLESS=1
// and a cloud runtime adapter (Lambda custom runtime, etc.).
//
// ── Boot sequence ─────────────────────────────────────────────────────
//   Config  ──>  Router  ──>  Middleware  ──>  Server
// ──────────────────────────────────────────────────────────────────────

mod handlers;
mod core;
mod config;

use oxidite::prelude::*;
use tracing::info;

#[tokio::main]
async fn main() -> Result<()> {
    tracing_subscriber::fmt()
        .with_env_filter(
            tracing_subscriber::EnvFilter::try_from_default_env()
                .unwrap_or_else(|_| "info".into()),
        )
        .init();

    // Production mode: the cloud runtime adapter is expected to invoke
    // handlers::api::handle or other handler fns directly. We just block.
    if std::env::var("OXIDITE_SERVERLESS").is_ok() {
        info!("Serverless function initialised — waiting for runtime adapter");
        loop {
            tokio::time::sleep(std::time::Duration::from_secs(3600)).await;
        }
    }

    info!("Starting local development server");

    // ── 2. Router ──────────────────────────────────────────────────────
    let config = oxidite::config::Config::default();
    let mut app = Application::new(config);

    // Mount each HTTP handler under its route for local testing.
    app.router_mut().get("/api/hello", handlers::api::handle);

    // Event and cron handlers have no HTTP trigger locally;
    // call them from tests or via the tinker REPL.

    // ── 3. Middleware ──  4. Server ────────────────────────────────────
    app.run().await
}
"#;

/// The `src/models/mod.rs` of a fullstack or API project.
pub const MODELS_MOD: &'static str = r#"// Data models and ORM structs are defined here.
// Use `oxidite make model User name:string email:string` to scaffold.
"#;

/// The `src/controllers/mod.rs` of a fullstack or API project.
pub const CONTROLLERS_MOD: &'static str = r#"// Controllers handle HTTP requests and return responses.
// Use `oxidite make controller Auth` to scaffold.
"#;

/// The `src/services/mod.rs` of a fullstack or API project.
pub const SERVICES_MOD: &'static str = r#"// Services contain business logic, keeping controllers thin.
// Use `oxidite make service Payment` to scaffold.
"#;

/// The `src/middleware/mod.rs` of a fullstack or API project.
pub const MIDDLEWARE_MOD: &'static str = r#"// Middleware runs before/after request handlers.
// Use `oxidite make middleware RequireAuth` to scaffold.
"#;

/// The `src/validators/mod.rs` of a fullstack or API project.
pub const VALIDATORS_MOD: &'static str = r#"// Validators check and sanitize user input.
// Use `oxidite make validator CreateUser` to scaffold.
"#;

/// The `src/jobs/mod.rs` of a fullstack or API project.
pub const JOBS_MOD: &'static str = r#"// Background jobs for async processing (emails, reports, etc.).
// Use `oxidite make job SendWelcomeEmail` to scaffold.
"#;

/// The `src/policies/mod.rs` of a fullstack or API project.
pub const POLICIES_MOD: &'static str = r#"// Authorization policies control access to resources.
// Use `oxidite make policy PostPolicy` to scaffold.
"#;

/// The `src/events/mod.rs` of a fullstack or API project.
pub const EVENTS_MOD: &'static str = r#"// Event handlers react to domain events.
// Use `oxidite make event UserRegistered` to scaffold.
"#;

/// The `src/routes/mod.rs` of a fullstack project.
pub const ROUTES_FULLSTACK: &'static str = r#"// Route registration.
//
// Add your routes inside `register()`. The `register_generated()` function
// is where `oxidite make route` inserts new route bindings automatically.
//
// Template rendering:
//   This scaffold registers a TemplateContext as shared state so that
//   every handler can render templates without creating the engine
//   from scratch. See the `index` handler below.
//
//   If you prefer the manual per-request approach (no state), just
//   drop the `router.with_state(...)` call and create a TemplateEngine
//   directly inside each handler — both patterns work.

use oxidite::prelude::*;
use oxidite::template::{Context, TemplateContext};
use std::sync::Arc;

/// Register all application routes on the router.
pub fn register(router: &mut Router) {
    // Share template directory config via type-safe State extractor.
    // The engine is created per-call — zero global lifecycle coupling.
    let templates = Arc::new(TemplateContext::new("templates"));
    router.with_state(templates);

    router.get("/", index);
    register_generated(router);
}

fn register_generated(router: &mut Router) {
    let _ = router;
}

async fn index(templates: State<Arc<TemplateContext>>) -> Result<Response> {
    let mut context = Context::new();
    context.set("name", "Oxidite");

    // State is a tuple struct — deref with `.0` to access the inner TemplateContext
    let body = templates.0
        .render("index.html", &context)
        .map_err(|e| Error::InternalServerError(e.to_string()))?;

    Ok(Response::html(body))
}
"#;

/// The `src/routes/mod.rs` of an API project.
pub const ROUTES_API: &'static str = r#"// Route registration.

use oxidite::prelude::*;

pub fn register(router: &mut Router) {
    router.get("/api/health", health);
    register_generated(router);
}

fn register_generated(router: &mut Router) {
    let _ = router;
}

async fn health(_req: Request) -> Result<Response> {
    Ok(Response::json_val(json!({"status": "ok"})))
}
"#;

/// The stylesheet of a fullstack project.
pub const STYLE_CSS: &'static str = r#"/* Oxidite default styles.
 *
 * These styles create a simple centred card layout for the welcome page.
 * Replace or extend them to match your design.
 */

body {
    /* System font stack for fast, native-looking text. */
    font-family: system-ui, -apple-system, Segoe UI, Roboto, sans-serif;

    /* Centre the card both horizontally and vertically. */
    display: flex;
    justify-content: center;
    align-items: center;
    min-height: 100vh;
    margin: 0;

    /* Dark background. */
    background-color: #0f172a;
    color: #e2e8f0;
}

.container {
    text-align: center;
    padding: 40px;
    background-color: #1e293b;
    border-radius: 12px;
}

/* Logo sizing — adjust width/height to taste. */
.logo {
    width: 200px;
    height: auto;
    margin-bottom: 24px;
}

h1 {
    margin: 0 0 8px;
    font-size: 2rem;
}

p {
    margin: 0;
    opacity: 0.8;
}
"#;

/// The client script of a fullstack project.
pub const APP_JS: &'static str = r#"// Client-side JavaScript.
// This file is served at /js/app.js from the public/ directory.
console.log('Oxidite app loaded');
"#;

/// The welcome page template of a fullstack project.
pub const INDEX_HTML: &'static str = r#"<!doctype html>
<html lang="en">
<head>
  <meta charset="utf-8">
  <meta name="viewport" content="width=device-width, initial-scale=1">
  <title>Hello, Oxidite</title>

  <!-- Favicon — the Oxidite logo from public/images/.
       Delete this line or point it to your own icon. -->
  <link rel="icon" type="image/svg+xml" href="/images/oxidite.svg">

  <!-- Styles from public/css/style.css -->
  <link rel="stylesheet" href="/css/style.css">
</head>
<body>
  <div class="container">
    <!-- Logo — served from public/images/oxidite.svg.
         Remove this <img> or replace the src with your own logo. -->
    <img class="logo" src="/images/oxidite.svg" alt="Oxidite logo">

    <h1>Hello, {{ name }}!</h1>
    <p>Your Oxidite app is running. Start building something great.</p>
  </div>

  <!-- Client-side JS from public/js/app.js -->
  <script src="/js/app.js"></script>
</body>
</html>
"#;

/// The `src/handlers/mod.rs` of a microservice.
pub const MS_HANDLERS_MOD: &'static str = r#"pub mod health;

use oxidite::prelude::*;

pub fn routes(router: &mut Router) {
    router.get("/health", health::check);
    router.get("/api/v1/status", health::status);
}
"#;

/// The `src/handlers/health.rs` of a microservice.
pub const MS_HEALTH: &'static str = r#"use oxidite::prelude::*;

pub async fn check(_req: Request) -> Result<Response> {
    Ok(Response::json_val(json!({"status": "ok"})))
}

pub async fn status(_req: Request) -> Result<Response> {
    Ok(Response::json_val(json!({
        "service": env!("CARGO_PKG_NAME"),
        "version": env!("CARGO_PKG_VERSION"),
        "status": "ok"
    })))
}
"#;

/// The `src/core/mod.rs` of a microservice.
pub const MS_CORE: &'static str = r#"// Domain types and business logic shared across handlers and events.
"#;

/// The `src/events/mod.rs` of a microservice.
pub const MS_EVENTS: &'static str = r#"// Event publishers and subscribers for async messaging.
// Examples: SQS, EventBridge, RabbitMQ, Kafka, NATS.
//
// pub mod order_events;
// pub mod notification_events;
"#;

/// The `src/queues/mod.rs` of a microservice.
pub const MS_QUEUES: &'static str = r#"use tracing::info;

/// Register and start background queue consumers.
/// Called once at service startup before the HTTP server binds.
pub async fn register() {
    info!("No queue consumers registered");
}

// Example consumer:
// pub async fn process_order_events() {
//     let mut rx = channel.subscribe("orders.created").await;
//     while let Some(msg) = rx.recv().await {
//         info!("Received order event: {:?}", msg);
//     }
// }
"#;

/// The `src/models/mod.rs` of a microservice.
pub const MS_MODELS: &'static str = r#"// Data models and ORM structs.
// Use `oxidite make model <name> <field>:<type>` to scaffold.
"#;

/// The `src/config/mod.rs` of a microservice.
pub const MS_CONFIG: &'static str = r#"// Microservice-specific configuration.
// Import and use shared config::Config from oxidite.
pub use oxidite::config::Config;
"#;

/// The `src/handlers/mod.rs` of a serverless project.
pub const SL_HANDLERS_MOD: &'static str = r#"pub mod api;
pub mod event;
pub mod cron;
"#;

/// The `src/handlers/api.rs` of a serverless project.
pub const SL_API: &'static str = r#"use oxidite::prelude::*;

/// HTTP API handler — deploy as Lambda Function URL, API Gateway, etc.
/// Accessible locally at GET /api/hello
pub async fn handle(_req: Request) -> Result<Response> {
    Ok(Response::json_val(json!({
        "service": "oxidite-serverless",
        "message": "Hello from the API handler"
    })))
}
"#;

/// The `src/handlers/event.rs` of a serverless project.
pub const SL_EVENT: &'static str = r#"use serde::{Deserialize, Serialize};

/// Example domain event consumed from SQS / EventBridge / Kafka.
#[derive(Debug, Deserialize, Serialize)]
pub struct OrderCreated {
    pub order_id: String,
    pub amount: f64,
    pub currency: String,
}

/// Event handler — triggered asynchronously by a message bus.
/// In production this is invoked by a Lambda event-source mapping.
pub async fn handle_event(event: OrderCreated) -> Result<(), String> {
    tracing::info!(
        "Processing order {}: {} {}",
        event.order_id,
        event.amount,
        event.currency,
    );
    Ok(())
}
"#;

/// The `src/handlers/cron.rs` of a serverless project.
pub const SL_CRON: &'static str = r#"/// Scheduled task handler — triggered by EventBridge Scheduler / cron().
/// In production each cron expression maps to its own Lambda invocation.
pub async fn handle_scheduled() -> Result<(), String> {
    tracing::info!("Scheduled task running");
    Ok(())
}
"#;

/// The `src/core/mod.rs` of a serverless project.
pub const SL_CORE: &'static str = r#"// Shared business logic, domain types, and helpers.
// Handlers import from here instead of duplicating code.

use serde::{Deserialize, Serialize};

#[derive(Debug, Clone, Serialize, Deserialize)]
pub struct HealthStatus {
    pub status: String,
    pub version: String,
}

impl Default for HealthStatus {
    fn default() -> Self {
        Self {
            status: "ok".into(),
            version: env!("CARGO_PKG_VERSION").into(),
        }
    }
}
"#;

/// The `src/config/mod.rs` of a serverless project.
pub const SL_CONFIG: &'static str = r#"use oxidite::config::Config;
use std::env;

/// Load configuration with environment-aware overrides.
/// Tries `config/{ENV}.toml` first, falls back to `oxidite.toml`.
pub fn load() -> Config {
    let env_name = env::var("OXIDITE_ENV").unwrap_or_else(|_| "dev".into());

    let config_path = format!("config/{}.toml", env_name);
    if std::path::Path::new(&config_path).exists() {
        Config::load_from(&config_path).unwrap_or_default()
    } else {
        Config::load().unwrap_or_default()
    }
}
"#;

/// The Terraform module of a serverless project; the project name stands where the placeholder is.
pub const SL_MAIN_TF: &'static str = r#"# Terraform for PROJECT_NAME — Oxidite serverless functions.

terraform {
  required_providers {
    aws = { source = "hashicorp/aws", version = "~> 5.0" }
  }
}

variable "app_name" {
  default = "PROJECT_NAME"
}

variable "aws_region" {
  default = "us-east-1"
}

resource "aws_apigatewayv2_api" "http" {
  name          = "${var.app_name}-api"
  protocol_type = "HTTP"
}

resource "aws_apigatewayv2_stage" "default" {
  api_id      = aws_apigatewayv2_api.http.id
  name        = "$default"
  auto_deploy = true
}

resource "aws_iam_role" "lambda_exec" {
  name = "${var.app_name}-exec"
  assume_role_policy = jsonencode({
    Version = "2012-10-17"
    Statement = [{
      Effect = "Allow"
      Principal = { Service = "lambda.amazonaws.com" }
      Action = "sts:AssumeRole"
    }]
  })
}

resource "aws_iam_role_policy_attachment" "basic" {
  role       = aws_iam_role.lambda_exec.name
  policy_arn = "arn:aws:iam::aws:policy/service-role/AWSLambdaBasicExecutionRole"
}

resource "aws_lambda_function" "api" {
  function_name = "${var.app_name}-api"
  package_type  = "Image"
  image_uri     = "${var.app_name}:latest"
  role          = aws_iam_role.lambda_exec.arn
  timeout       = 30
  memory_size   = 512
  environment {
    variables = {
      OXIDITE_SERVERLESS = "1"
      OXIDITE_ENV        = "production"
    }
  }
}

resource "aws_lambda_permission" "api_gw" {
  function_name = aws_lambda_function.api.function_name
  action        = "lambda:InvokeFunction"
  principal     = "apigateway.amazonaws.com"
  source_arn    = "${aws_apigatewayv2_api.http.execution_arn}/*/*"
}

resource "aws_apigatewayv2_integration" "lambda" {
  api_id             = aws_apigatewayv2_api.http.id
  integration_type   = "AWS_PROXY"
  integration_uri    = aws_lambda_function.api.invoke_arn
  payload_format_version = "2.0"
}

resource "aws_apigatewayv2_route" "any" {
  api_id    = aws_apigatewayv2_api.http.id
  route_key = "ANY /{proxy+}"
  target    = "integrations/${aws_apigatewayv2_integration.lambda.id}"
}
"#;

/// The Terraform variables of a serverless project.
pub const SL_VARIABLES_TF: &'static str = r#"variable "environment" {
  description = "Deployment environment (dev, staging, prod)"
  type        = string
  default     = "dev"
}

variable "tags" {
  description = "Common resource tags"
  type        = map(string)
  default = {
    Terraform   = "true"
    Framework   = "oxidite"
  }
}
"#;

/// The start of a serverless project's `wrangler.toml`.
pub const WRANGLER_HEAD: &'static str = r#"name = ""#;

/// The rest of a serverless project's `wrangler.toml`.
pub const WRANGLER_TAIL: &'static str = r#""
main = "src/main.rs"
compatibility_date = "2025-01-01"

[build]
command = "cargo build --release --target wasm32-wasi"
watch_dir = "src"

[[build.assets]]
pattern = "*.wasm"
"#;

/// The development overrides of a serverless project.
pub const SL_DEV_TOML: &'static str = r#"[server]
host = "127.0.0.1"
port = 8080

[env]
LOG_LEVEL = "debug"
"#;

/// The staging overrides of a serverless project.
pub const SL_STAGING_TOML: &'static str = r#"[server]
host = "0.0.0.0"
port = 8080

[provider]
region = "eu-west-1"

[env]
LOG_LEVEL = "info"
"#;

/// The production overrides of a serverless project.
pub const SL_PROD_TOML: &'static str = r#"[server]
host = "0.0.0.0"
port = 8080

[provider]
region = "us-east-1"

[handlers.api]
memory = 1024
timeout = 30

[handlers.event_processor]
memory = 2048
timeout = 120

[env]
LOG_LEVEL = "warn"
"#;

/// The `.env.example` of a serverless project.
pub const SL_ENV_EXAMPLE: &'static str = r#"OXIDITE_ENV=dev
LOG_LEVEL=debug
# AWS_ACCESS_KEY_ID=
# AWS_SECRET_ACCESS_KEY=
# AWS_REGION=us-east-1
# DATABASE_URL=postgres://...
# REDIS_URL=redis://...
"#;

/// The container image of an AWS Lambda deployment.
pub const LAMBDA_DOCKERFILE: &'static str = r#"FROM rust:1.85-alpine AS builder
RUN apk add --no-cache musl-dev
WORKDIR /app
COPY Cargo.toml Cargo.lock ./
COPY src ./src
RUN cargo build --release --target x86_64-unknown-linux-musl

FROM public.ecr.aws/lambda/provided:al2023
COPY --from=builder /app/target/x86_64-unknown-linux-musl/release/<YOUR_PROJECT> /bootstrap
CMD ["handler"]
"#;

/// The build-and-push script of an AWS Lambda deployment.
pub const LAMBDA_DEPLOY_SCRIPT: &'static str = r#"#!/usr/bin/env bash
set -euo pipefail

ACCOUNT_ID="${AWS_ACCOUNT_ID:-$(aws sts get-caller-identity --query Account --output text)}"
REGION="${AWS_REGION:-us-east-1}"
FUNCTION_NAME="${1:-my-oxidite-function}"

echo "Building Lambda image..."
docker build --platform linux/amd64 \
  -t "${FUNCTION_NAME}:latest" .

echo "Tagging and pushing to ECR..."
aws ecr get-login-password --region "$REGION" \
  | docker login --username AWS --password-stdin "${ACCOUNT_ID}.dkr.ecr.${REGION}.amazonaws.com"

REPO_URI="${ACCOUNT_ID}.dkr.ecr.${REGION}.amazonaws.com/${FUNCTION_NAME}"
docker tag "${FUNCTION_NAME}:latest" "${REPO_URI}:latest"
docker push "${REPO_URI}:latest"

echo "Updating Lambda function..."
aws lambda update-function-code \
  --function-name "$FUNCTION_NAME" \
  --image-uri "${REPO_URI}:latest" \
  --region "$REGION"

echo "Deployment complete."
"#;

/// The Terraform module of an AWS Lambda deployment.
pub const LAMBDA_TF: &'static str = r#"# Terraform module for Oxidite Lambda function
# Update the image_uri after your first deploy.
resource "aws_lambda_function" "oxidite_fn" {
  function_name = "oxidite-serverless"
  package_type  = "Image"
  image_uri     = "${var.aws_account_id}.dkr.ecr.${var.aws_region}.amazonaws.com/oxidite-serverless:latest"
  role          = aws_iam_role.lambda_exec.arn
  timeout       = 30
  memory_size   = 512
  environment {
    variables = {
      OXIDITE_SERVERLESS = "1"
    }
  }
}

resource "aws_iam_role" "lambda_exec" {
  name = "oxidite-lambda-exec"
  assume_role_policy = jsonencode({
    Version = "2012-10-17"
    Statement = [{
      Effect = "Allow"
      Principal = { Service = "lambda.amazonaws.com" }
      Action = "sts:AssumeRole"
    }]
  })
}

resource "aws_iam_role_policy_attachment" "basic_exec" {
  role       = aws_iam_role.lambda_exec.name
  policy_arn = "arn:aws:iam::aws:policy/service-role/AWSLambdaBasicExecutionRole"
}
"#;

/// The container image of a Docker deployment.
pub const DOCKER_DOCKERFILE: &'static str = r#"FROM rust:1.85-slim-bookworm AS builder
WORKDIR /app
COPY Cargo.toml Cargo.lock ./
COPY src ./src
RUN cargo build --release

FROM debian:bookworm-slim
RUN apt-get update && apt-get install -y --no-install-recommends ca-certificates && rm -rf /var/lib/apt/lists/*
COPY --from=builder /app/target/release/<YOUR_PROJECT> /app/server
EXPOSE 8080
CMD ["/app/server"]
"#;

/// The compose file of a Docker deployment.
pub const DOCKER_COMPOSE: &'static str = r#"version: "3.9"
services:
  oxidite:
    build: ..
    ports:
      - "8080:8080"
    environment:
      - OXIDITE_ENV=production
      - SERVER_HOST=0.0.0.0
"#;

/// The Workers configuration of a Cloudflare deployment.
pub const CLOUDFLARE_WRANGLER: &'static str = r#"name = "oxidite-function"
main = "src/main.rs"
compatibility_date = "2025-01-01"

[build]
command = "cargo build --release --target wasm32-wasi"
watch_dir = "src"

[[build.assets]]
pattern = "*.wasm"
"#;

} // verus!
