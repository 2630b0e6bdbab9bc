use gha_workflow::doc::Doc;
use gha_workflow::job::{Job, JobStep};
use gha_workflow::permissions::{PermissionValue, Permissions, Scope, UnknownToken};
use gha_workflow::settings::{Concurrency, Container, Credentials, Defaults, Environment, RunDefaults, Strategy};
use gha_workflow::triggers::{PullRequest, Push, Schedule, Secret, Triggers, WorkflowCall, WorkflowDispatch};
use gha_workflow::workflow::Workflow;
use serde_yml::{Mapping, Value};

fn keys(d: &Doc) -> Vec<String> {
    match d {
        Doc::Fields(fs) => fs.iter().map(|(k, _)| k.clone()).collect(),
        _ => panic!("not a mapping: {:?}", d),
    }
}

fn field<'a>(d: &'a Doc, key: &str) -> &'a Doc {
    match d {
        Doc::Fields(fs) => &fs.iter().find(|(k, _)| k == key).expect(key).1,
        _ => panic!("not a mapping: {:?}", d),
    }
}

fn texts(d: &Doc) -> Vec<String> {
    match d {
        Doc::Texts(v) => v.clone(),
        _ => panic!("not a list of texts: {:?}", d),
    }
}

fn text(d: &Doc) -> String {
    match d {
        Doc::Text(s) => s.clone(),
        _ => panic!("not a text: {:?}", d),
    }
}

#[test]
fn workflow_builder() {
    let complex = Mapping::from_iter(
        [
            (String::from("inner-key"), Value::from("inner-value")),
            (String::from("inner-key2"), Value::from(1)),
        ]
        .into_iter(),
    );
    let workflow = Workflow::builder()
        .name("test-workflow")
        .on_push(Push::builder().branch("main").tag(r#"v?.[0-9]+.[0-9]+.[0-9]+"#).build())
        .on_pull_request(PullRequest::builder().ignore_branch("test").build())
        .on_workflow_dispatch(WorkflowDispatch::builder().build())
        .add_job(
            "some-job",
            Job::builder()
                .add_step(
                    JobStep::builder()
                        .uses("some-action-user/some-action")
                        .with("key", Value::from("value"))
                        .with("complex", Value::Mapping(complex.clone()))
                        .build(),
                )
                .build(),
        )
        .build();
    let d = workflow.to_doc();
    assert_eq!(keys(&d), vec!["name", "on", "jobs"]);
    assert_eq!(text(field(&d, "name")), "test-workflow");
    let on = field(&d, "on");
    assert_eq!(keys(on), vec!["pull_request", "push"]);
    let push = field(on, "push");
    assert_eq!(keys(push), vec!["branches", "tags"]);
    assert_eq!(texts(field(push, "branches")), vec!["main"]);
    assert_eq!(texts(field(push, "tags")), vec!["v?.[0-9]+.[0-9]+.[0-9]+"]);
    let pr = field(on, "pull_request");
    assert_eq!(keys(pr), vec!["branches-ignore"]);
    assert_eq!(texts(field(pr, "branches-ignore")), vec!["test"]);
    let jobs = field(&d, "jobs");
    assert_eq!(keys(jobs), vec!["some-job"]);
    let job = field(jobs, "some-job");
    assert_eq!(keys(job), vec!["steps"]);
    let steps = match field(job, "steps") {
        Doc::Docs(v) => v,
        other => panic!("not a list: {:?}", other),
    };
    assert_eq!(steps.len(), 1);
    assert_eq!(keys(&steps[0]), vec!["uses", "with"]);
    assert_eq!(text(field(&steps[0], "uses")), "some-action-user/some-action");
    let with = field(&steps[0], "with");
    assert_eq!(keys(with), vec!["complex", "key"]);
    match field(with, "key") {
        Doc::Data(v) => assert_eq!(v, &Value::from("value")),
        other => panic!("not a value: {:?}", other),
    }
    match field(with, "complex") {
        Doc::Data(v) => assert_eq!(v, &Value::Mapping(complex)),
        other => panic!("not a value: {:?}", other),
    }
}

#[test]
fn empty_workflow_writes_only_name() {
    let d = Workflow::builder().name("bare").build().to_doc();
    assert_eq!(keys(&d), vec!["name"]);
}

#[test]
fn empty_substructures_are_left_out() {
    let w = Workflow::builder()
        .name("w")
        .on_schedule(Schedule::builder().build())
        .on_workflow_call(WorkflowCall::builder().build())
        .build();
    assert!(w.on.is_empty());
    assert_eq!(keys(&w.to_doc()), vec!["name"]);
}

#[test]
fn read_then_write_leaves_write() {
    let job = Job::builder().contents_read_permission().contents_write_permission().build();
    let p = job.permissions.unwrap();
    assert_eq!(p.contents, PermissionValue::Write);
    assert_eq!(p.issues, PermissionValue::Unset);
}

#[test]
fn write_then_read_leaves_read() {
    let w = Workflow::builder().name("w").packages_write_permission().packages_read_permission().build();
    let p = w.permissions.unwrap();
    assert_eq!(p.packages, PermissionValue::Read);
    assert_eq!(p.get(Scope::Packages), PermissionValue::Read);
}

#[test]
fn grants_on_other_scopes_are_kept() {
    let w = Workflow::builder()
        .name("w")
        .actions_read_permission()
        .id_write_permission()
        .statuses_read_permission()
        .build();
    let p = w.permissions.unwrap();
    assert_eq!(p.actions, PermissionValue::Read);
    assert_eq!(p.id, PermissionValue::Write);
    assert_eq!(p.statuses, PermissionValue::Read);
    assert_eq!(p.checks, PermissionValue::Unset);
    let d = w.to_doc();
    let perms = field(&d, "permissions");
    assert_eq!(keys(perms), vec!["actions", "id", "statuses"]);
    assert_eq!(text(field(perms, "actions")), "read");
    assert_eq!(text(field(perms, "id")), "write");
}

#[test]
fn permissions_emptiness() {
    let mut p = Permissions::default();
    assert!(p.is_empty());
    assert!(p.pull.is_none());
    p.set(Scope::Pull, PermissionValue::Write);
    assert!(!p.is_empty());
    assert!(!p.pull.is_none());
    assert_eq!(PermissionValue::default(), PermissionValue::Unset);
}

#[test]
fn permission_tokens() {
    assert_eq!(PermissionValue::Read.token(), "read");
    assert_eq!(PermissionValue::Write.token(), "write");
    assert_eq!(PermissionValue::Unset.token(), "none");
    for v in [PermissionValue::Read, PermissionValue::Write, PermissionValue::Unset] {
        assert_eq!(PermissionValue::from_token(v.token()), Ok(v));
    }
    assert_eq!(
        PermissionValue::from_token("admin"),
        Err(UnknownToken { token: String::from("admin") })
    );
    assert!(PermissionValue::from_token("Read").is_err());
}

#[test]
fn matrix_appends_in_call_order() {
    let s = Strategy::builder()
        .add_to_matrix("os", Value::from("linux"))
        .add_to_matrix("os", Value::from("macos"))
        .build();
    assert_eq!(s.matrix.get("os").unwrap(), &vec![Value::from("linux"), Value::from("macos")]);
    let s = Strategy::builder()
        .matrix("rust", vec![Value::from("stable")])
        .add_to_matrix("rust", Value::from("nightly"))
        .build();
    assert_eq!(s.matrix.get("rust").unwrap(), &vec![Value::from("stable"), Value::from("nightly")]);
    assert!(!s.is_empty());
    assert!(Strategy::builder().build().is_empty());
}

#[test]
fn matrix_replace_then_document() {
    let s = Strategy::builder()
        .add_to_matrix("b", Value::from(1))
        .matrix("a", vec![Value::from(2), Value::from(3)])
        .matrix("b", vec![Value::from(4)])
        .fail_fast(Value::from(false))
        .build();
    let d = s.to_doc();
    assert_eq!(keys(&d), vec!["matrix", "fail-fast"]);
    let m = field(&d, "matrix");
    assert_eq!(keys(m), vec!["a", "b"]);
    match field(m, "a") {
        Doc::Datas(v) => assert_eq!(v, &vec![Value::from(2), Value::from(3)]),
        other => panic!("not a list: {:?}", other),
    }
    match field(m, "b") {
        Doc::Datas(v) => assert_eq!(v, &vec![Value::from(4)]),
        other => panic!("not a list: {:?}", other),
    }
}

#[test]
fn lists_keep_call_order() {
    let p = Push::builder().branch("b").branch("a").branch("c").path("z").path("y").build();
    assert_eq!(p.branches, vec!["b", "a", "c"]);
    let d = p.to_doc();
    assert_eq!(keys(&d), vec!["branches", "paths"]);
    assert_eq!(texts(field(&d, "branches")), vec!["b", "a", "c"]);
    assert_eq!(texts(field(&d, "paths")), vec!["z", "y"]);
    let s = Schedule::builder().cron("0 0 * * *").cron("5 4 * * 1").build();
    assert_eq!(texts(field(&s.to_doc(), "cron")), vec!["0 0 * * *", "5 4 * * 1"]);
    let job = Job::builder()
        .add_step(JobStep::builder().name("first").build())
        .add_step(JobStep::builder().name("second").build())
        .needs("build")
        .needs("lint")
        .build();
    assert_eq!(job.steps[0].name.as_deref(), Some("first"));
    assert_eq!(job.steps[1].name.as_deref(), Some("second"));
    let d = job.to_doc();
    assert_eq!(keys(&d), vec!["needs", "steps"]);
    assert_eq!(texts(field(&d, "needs")), vec!["build", "lint"]);
}

#[test]
fn keyed_fields_are_sorted_and_last_write_wins() {
    let w = Workflow::builder()
        .name("w")
        .env_var("ZED", "1")
        .env_var("ALPHA", "2")
        .env_var("MID", "3")
        .env_var("ZED", "4")
        .build();
    assert_eq!(w.env.len(), 3);
    assert_eq!(w.env.get("ZED").unwrap().as_str(), "4");
    let d = w.to_doc();
    assert_eq!(keys(&d), vec!["name", "env"]);
    let env = field(&d, "env");
    assert_eq!(keys(env), vec!["ALPHA", "MID", "ZED"]);
    assert_eq!(text(field(env, "ZED")), "4");
}

#[test]
fn trigger_emptiness() {
    assert!(PullRequest::builder().build().is_empty());
    assert!(!PullRequest::builder().event_type("opened").build().is_empty());
    assert!(Push::builder().build().is_empty());
    assert!(!Push::builder().ignore_tag("x").build().is_empty());
    assert!(Schedule::builder().build().is_empty());
    assert!(WorkflowDispatch::builder().build().is_empty());
    assert!(!WorkflowCall::builder().secret("token", Secret::builder().build()).build().is_empty());
    assert!(Secret::builder().build().is_empty());
    assert!(!Secret::builder().required(Value::from(true)).build().is_empty());
    let mut t = Triggers::new();
    assert!(t.is_empty());
    t.push = Some(Push::builder().build());
    assert!(t.is_empty());
    t.push = Some(Push::builder().branch("main").build());
    assert!(!t.is_empty());
}

#[test]
fn settings_emptiness() {
    assert!(RunDefaults::new().is_empty());
    assert!(Defaults::builder().build().is_empty());
    let d = Defaults::builder().shell("bash").build();
    assert!(!d.is_empty());
    assert!(!d.run.is_empty());
    assert!(Concurrency::new().is_empty());
    assert!(Environment::builder().build().is_empty());
    assert!(!Environment::builder().url("https://example.com").build().is_empty());
    assert!(Credentials::builder().build().is_empty());
    assert!(!Credentials::builder().username("me").build().is_empty());
    assert!(Container::builder().build().is_empty());
    assert!(!Container::builder().port(Value::from(80)).build().is_empty());
    assert!(!Container::builder().credentials(Credentials::builder().password("pw").build()).build().is_empty());
}

#[test]
fn workflow_defaults_and_concurrency() {
    let w = Workflow::builder()
        .name("w")
        .run_name("run")
        .default_run_shell("bash")
        .default_run_cwd("src")
        .concurrency_group(Value::from("ci"))
        .concurrency_cancel_in_progress()
        .build();
    let d = w.to_doc();
    assert_eq!(keys(&d), vec!["name", "run-name", "defaults", "concurrency"]);
    let run = field(field(&d, "defaults"), "run");
    assert_eq!(keys(run), vec!["shell", "working-directory"]);
    assert_eq!(text(field(run, "working-directory")), "src");
    let c = field(&d, "concurrency");
    assert_eq!(keys(c), vec!["group", "cancel-in-progress"]);
    match field(c, "cancel-in-progress") {
        Doc::Data(v) => assert_eq!(v, &Value::Bool(true)),
        other => panic!("not a value: {:?}", other),
    }
    match field(c, "group") {
        Doc::Data(v) => assert_eq!(v, &Value::from("ci")),
        other => panic!("not a value: {:?}", other),
    }
}

#[test]
fn job_fields_use_their_written_names() {
    let job = Job::builder()
        .if_cond("always()")
        .runs_on("ubuntu-latest")
        .timeout_minutes(Value::from(10))
        .output("out", "value")
        .secret("inherit", "yes")
        .service("db", Container::builder().image(Value::from("postgres")).env_var("PW", Value::from("x")).build())
        .build();
    let d = job.to_doc();
    assert_eq!(keys(&d), vec!["if", "runs-on", "outputs", "timeout-minutes", "services", "secrets"]);
    let db = field(field(&d, "services"), "db");
    assert_eq!(keys(db), vec!["image", "env"]);
    let step = JobStep::builder().if_cond("success()").env("A", "b").continue_on_error("true").build();
    assert_eq!(keys(&step.to_doc()), vec!["if", "env", "continue-on-error"]);
}

#[test]
fn dispatch_inputs_are_written() {
    let input = gha_workflow::triggers::Input::builder().description("which").required(true).kind("string").build();
    let w = Workflow::builder()
        .name("w")
        .on_workflow_dispatch(WorkflowDispatch::builder().input("target", input).build())
        .build();
    let d = w.to_doc();
    let disp = field(field(&d, "on"), "workflow_dispatch");
    let target = field(field(disp, "inputs"), "target");
    assert_eq!(keys(target), vec!["description", "required", "type"]);
    match field(target, "required") {
        Doc::Flag(b) => assert!(*b),
        other => panic!("not a flag: {:?}", other),
    }
}
