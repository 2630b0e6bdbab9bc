//! The workflow, root of the document.
use vstd::prelude::*;
use crate::job::Job;
use crate::keyed::KeyedMap;
use crate::permissions::{grant, granted, PermissionValue, Permissions, Scope};
use crate::settings::{Concurrency, Defaults, RunDefaults};
use crate::triggers::{PullRequest, Push, Schedule, Triggers, WorkflowCall, WorkflowDispatch};
use crate::value::{bool_value, yaml_bool};
use serde_yml::Value;
use crate::doc::{entries_of, entry_keys, holds_in, push_opt, is_text, is_text_map, keys_of, opt_key, text_map_doc, Doc};

verus! {

/// A whole workflow: the root of the document.
#[derive(Debug, Clone)]
pub struct Workflow {
    pub name: String,
    pub run_name: Option<String>,
    pub on: Triggers,
    pub permissions: Option<Permissions>,
    pub env: KeyedMap<String>,
    pub defaults: Defaults,
    pub concurrency: Concurrency,
    pub jobs: KeyedMap<Job>,
}

impl Workflow {
    /// The keyed fields are in order.
    pub open spec fn wf(&self) -> bool {
        self.env.wf()
        && self.jobs.wf()
    }

    /// Every field is at its starting value.
    pub open spec fn is_blank(&self) -> bool {
        self.name@.len() == 0
        && self.run_name is None
        && self.on.is_blank()
        && self.permissions is None
        && self.env.keys().len() == 0
        && self.defaults.is_blank()
        && self.concurrency.is_blank()
        && self.jobs.keys().len() == 0
    }

    /// A value with every field at its starting value.
    pub fn new() -> (r: Workflow)
        ensures
            r.is_blank(),
            r.wf(),
    {
        Workflow {
            name: String::new(),
            run_name: Option::None,
            on: Triggers::new(),
            permissions: Option::None,
            env: KeyedMap::new(),
            defaults: Defaults::new(),
            concurrency: Concurrency::new(),
            jobs: KeyedMap::new(),
        }
    }

    /// Starts a builder with every field at its starting value.
    pub fn builder() -> (r: WorkflowBuilder)
        ensures
            r.staged().is_blank(),
            r.staged().wf(),
    {
        WorkflowBuilder { staged: Workflow::new() }
    }
}

impl Default for Workflow {
    fn default() -> (r: Self)
        ensures
            r.is_blank(),
    {
        Workflow::new()
    }
}

/// Stages a [`Workflow`]: lists only grow at their end, keyed fields take
/// the last value set under a key, and `build` hands out the result.
pub struct WorkflowBuilder {
    staged: Workflow,
}

impl WorkflowBuilder {
    /// What `build` would hand out now.
    pub closed spec fn staged(&self) -> Workflow {
        self.staged
    }

    pub fn build(self) -> (r: Workflow)
        ensures
            r == self.staged(),
    {
        self.staged
    }

    /// Sets `name`.
    pub fn name(self, value: &str) -> (r: WorkflowBuilder)
        ensures
            r.staged().name@ == value@,
            (r.staged() == (Workflow { name: r.staged().name, ..self.staged() })),
    {
        let mut b = self;
        b.staged.name = value.to_owned();
        b
    }

    /// Sets `run_name`.
    pub fn run_name(self, value: &str) -> (r: WorkflowBuilder)
        ensures
            r.staged().run_name is Some,
            r.staged().run_name->Some_0@ == value@,
            (r.staged() == (Workflow { run_name: r.staged().run_name, ..self.staged() })),
    {
        let mut b = self;
        b.staged.run_name = Option::Some(value.to_owned());
        b
    }

    /// Grants `value` on `scope`, creating the permission set when there is none.
    pub fn grant_permission(self, scope: Scope, value: PermissionValue) -> (r: WorkflowBuilder)
        ensures
            r.staged().permissions == Option::Some(granted(self.staged().permissions, scope, value)),
            (r.staged() == (Workflow { permissions: r.staged().permissions, ..self.staged() })),
    {
        let mut b = self;
        grant(&mut b.staged.permissions, scope, value);
        b
    }

    /// Grants read access on `actions`.
    pub fn actions_read_permission(self) -> (r: WorkflowBuilder)
        ensures
            r.staged().permissions == Option::Some(granted(self.staged().permissions, Scope::Actions, PermissionValue::Read)),
            (r.staged() == (Workflow { permissions: r.staged().permissions, ..self.staged() })),
    {
        let mut b = self;
        grant(&mut b.staged.permissions, Scope::Actions, PermissionValue::Read);
        b
    }

    /// Grants write access on `actions`.
    pub fn actions_write_permission(self) -> (r: WorkflowBuilder)
        ensures
            r.staged().permissions == Option::Some(granted(self.staged().permissions, Scope::Actions, PermissionValue::Write)),
            (r.staged() == (Workflow { permissions: r.staged().permissions, ..self.staged() })),
    {
        let mut b = self;
        grant(&mut b.staged.permissions, Scope::Actions, PermissionValue::Write);
        b
    }

    /// Grants read access on `attestations`.
    pub fn attestations_read_permission(self) -> (r: WorkflowBuilder)
        ensures
            r.staged().permissions == Option::Some(granted(self.staged().permissions, Scope::Attestations, PermissionValue::Read)),
            (r.staged() == (Workflow { permissions: r.staged().permissions, ..self.staged() })),
    {
        let mut b = self;
        grant(&mut b.staged.permissions, Scope::Attestations, PermissionValue::Read);
        b
    }

    /// Grants write access on `attestations`.
    pub fn attestations_write_permission(self) -> (r: WorkflowBuilder)
        ensures
            r.staged().permissions == Option::Some(granted(self.staged().permissions, Scope::Attestations, PermissionValue::Write)),
            (r.staged() == (Workflow { permissions: r.staged().permissions, ..self.staged() })),
    {
        let mut b = self;
        grant(&mut b.staged.permissions, Scope::Attestations, PermissionValue::Write);
        b
    }

    /// Grants read access on `checks`.
    pub fn checks_read_permission(self) -> (r: WorkflowBuilder)
        ensures
            r.staged().permissions == Option::Some(granted(self.staged().permissions, Scope::Checks, PermissionValue::Read)),
            (r.staged() == (Workflow { permissions: r.staged().permissions, ..self.staged() })),
    {
        let mut b = self;
        grant(&mut b.staged.permissions, Scope::Checks, PermissionValue::Read);
        b
    }

    /// Grants write access on `checks`.
    pub fn checks_write_permission(self) -> (r: WorkflowBuilder)
        ensures
            r.staged().permissions == Option::Some(granted(self.staged().permissions, Scope::Checks, PermissionValue::Write)),
            (r.staged() == (Workflow { permissions: r.staged().permissions, ..self.staged() })),
    {
        let mut b = self;
        grant(&mut b.staged.permissions, Scope::Checks, PermissionValue::Write);
        b
    }

    /// Grants read access on `contents`.
    pub fn contents_read_permission(self) -> (r: WorkflowBuilder)
        ensures
            r.staged().permissions == Option::Some(granted(self.staged().permissions, Scope::Contents, PermissionValue::Read)),
            (r.staged() == (Workflow { permissions: r.staged().permissions, ..self.staged() })),
    {
        let mut b = self;
        grant(&mut b.staged.permissions, Scope::Contents, PermissionValue::Read);
        b
    }

    /// Grants write access on `contents`.
    pub fn contents_write_permission(self) -> (r: WorkflowBuilder)
        ensures
            r.staged().permissions == Option::Some(granted(self.staged().permissions, Scope::Contents, PermissionValue::Write)),
            (r.staged() == (Workflow { permissions: r.staged().permissions, ..self.staged() })),
    {
        let mut b = self;
        grant(&mut b.staged.permissions, Scope::Contents, PermissionValue::Write);
        b
    }

    /// Grants read access on `deployments`.
    pub fn deployments_read_permission(self) -> (r: WorkflowBuilder)
        ensures
            r.staged().permissions == Option::Some(granted(self.staged().permissions, Scope::Deployments, PermissionValue::Read)),
            (r.staged() == (Workflow { permissions: r.staged().permissions, ..self.staged() })),
    {
        let mut b = self;
        grant(&mut b.staged.permissions, Scope::Deployments, PermissionValue::Read);
        b
    }

    /// Grants write access on `deployments`.
    pub fn deployments_write_permission(self) -> (r: WorkflowBuilder)
        ensures
            r.staged().permissions == Option::Some(granted(self.staged().permissions, Scope::Deployments, PermissionValue::Write)),
            (r.staged() == (Workflow { permissions: r.staged().permissions, ..self.staged() })),
    {
        let mut b = self;
        grant(&mut b.staged.permissions, Scope::Deployments, PermissionValue::Write);
        b
    }

    /// Grants read access on `id`.
    pub fn id_read_permission(self) -> (r: WorkflowBuilder)
        ensures
            r.staged().permissions == Option::Some(granted(self.staged().permissions, Scope::Id, PermissionValue::Read)),
            (r.staged() == (Workflow { permissions: r.staged().permissions, ..self.staged() })),
    {
        let mut b = self;
        grant(&mut b.staged.permissions, Scope::Id, PermissionValue::Read);
        b
    }

    /// Grants write access on `id`.
    pub fn id_write_permission(self) -> (r: WorkflowBuilder)
        ensures
            r.staged().permissions == Option::Some(granted(self.staged().permissions, Scope::Id, PermissionValue::Write)),
            (r.staged() == (Workflow { permissions: r.staged().permissions, ..self.staged() })),
    {
        let mut b = self;
        grant(&mut b.staged.permissions, Scope::Id, PermissionValue::Write);
        b
    }

    /// Grants read access on `issues`.
    pub fn issues_read_permission(self) -> (r: WorkflowBuilder)
        ensures
            r.staged().permissions == Option::Some(granted(self.staged().permissions, Scope::Issues, PermissionValue::Read)),
            (r.staged() == (Workflow { permissions: r.staged().permissions, ..self.staged() })),
    {
        let mut b = self;
        grant(&mut b.staged.permissions, Scope::Issues, PermissionValue::Read);
        b
    }

    /// Grants write access on `issues`.
    pub fn issues_write_permission(self) -> (r: WorkflowBuilder)
        ensures
            r.staged().permissions == Option::Some(granted(self.staged().permissions, Scope::Issues, PermissionValue::Write)),
            (r.staged() == (Workflow { permissions: r.staged().permissions, ..self.staged() })),
    {
        let mut b = self;
        grant(&mut b.staged.permissions, Scope::Issues, PermissionValue::Write);
        b
    }

    /// Grants read access on `discussions`.
    pub fn discussions_read_permission(self) -> (r: WorkflowBuilder)
        ensures
            r.staged().permissions == Option::Some(granted(self.staged().permissions, Scope::Discussions, PermissionValue::Read)),
            (r.staged() == (Workflow { permissions: r.staged().permissions, ..self.staged() })),
    {
        let mut b = self;
        grant(&mut b.staged.permissions, Scope::Discussions, PermissionValue::Read);
        b
    }

    /// Grants write access on `discussions`.
    pub fn discussions_write_permission(self) -> (r: WorkflowBuilder)
        ensures
            r.staged().permissions == Option::Some(granted(self.staged().permissions, Scope::Discussions, PermissionValue::Write)),
            (r.staged() == (Workflow { permissions: r.staged().permissions, ..self.staged() })),
    {
        let mut b = self;
        grant(&mut b.staged.permissions, Scope::Discussions, PermissionValue::Write);
        b
    }

    /// Grants read access on `packages`.
    pub fn packages_read_permission(self) -> (r: WorkflowBuilder)
        ensures
            r.staged().permissions == Option::Some(granted(self.staged().permissions, Scope::Packages, PermissionValue::Read)),
            (r.staged() == (Workflow { permissions: r.staged().permissions, ..self.staged() })),
    {
        let mut b = self;
        grant(&mut b.staged.permissions, Scope::Packages, PermissionValue::Read);
        b
    }

    /// Grants write access on `packages`.
    pub fn packages_write_permission(self) -> (r: WorkflowBuilder)
        ensures
            r.staged().permissions == Option::Some(granted(self.staged().permissions, Scope::Packages, PermissionValue::Write)),
            (r.staged() == (Workflow { permissions: r.staged().permissions, ..self.staged() })),
    {
        let mut b = self;
        grant(&mut b.staged.permissions, Scope::Packages, PermissionValue::Write);
        b
    }

    /// Grants read access on `pages`.
    pub fn pages_read_permission(self) -> (r: WorkflowBuilder)
        ensures
            r.staged().permissions == Option::Some(granted(self.staged().permissions, Scope::Pages, PermissionValue::Read)),
            (r.staged() == (Workflow { permissions: r.staged().permissions, ..self.staged() })),
    {
        let mut b = self;
        grant(&mut b.staged.permissions, Scope::Pages, PermissionValue::Read);
        b
    }

    /// Grants write access on `pages`.
    pub fn pages_write_permission(self) -> (r: WorkflowBuilder)
        ensures
            r.staged().permissions == Option::Some(granted(self.staged().permissions, Scope::Pages, PermissionValue::Write)),
            (r.staged() == (Workflow { permissions: r.staged().permissions, ..self.staged() })),
    {
        let mut b = self;
        grant(&mut b.staged.permissions, Scope::Pages, PermissionValue::Write);
        b
    }

    /// Grants read access on `pull`.
    pub fn pull_read_permission(self) -> (r: WorkflowBuilder)
        ensures
            r.staged().permissions == Option::Some(granted(self.staged().permissions, Scope::Pull, PermissionValue::Read)),
            (r.staged() == (Workflow { permissions: r.staged().permissions, ..self.staged() })),
    {
        let mut b = self;
        grant(&mut b.staged.permissions, Scope::Pull, PermissionValue::Read);
        b
    }

    /// Grants write access on `pull`.
    pub fn pull_write_permission(self) -> (r: WorkflowBuilder)
        ensures
            r.staged().permissions == Option::Some(granted(self.staged().permissions, Scope::Pull, PermissionValue::Write)),
            (r.staged() == (Workflow { permissions: r.staged().permissions, ..self.staged() })),
    {
        let mut b = self;
        grant(&mut b.staged.permissions, Scope::Pull, PermissionValue::Write);
        b
    }

    /// Grants read access on `repository`.
    pub fn repository_read_permission(self) -> (r: WorkflowBuilder)
        ensures
            r.staged().permissions == Option::Some(granted(self.staged().permissions, Scope::Repository, PermissionValue::Read)),
            (r.staged() == (Workflow { permissions: r.staged().permissions, ..self.staged() })),
    {
        let mut b = self;
        grant(&mut b.staged.permissions, Scope::Repository, PermissionValue::Read);
        b
    }

    /// Grants write access on `repository`.
    pub fn repository_write_permission(self) -> (r: WorkflowBuilder)
        ensures
            r.staged().permissions == Option::Some(granted(self.staged().permissions, Scope::Repository, PermissionValue::Write)),
            (r.staged() == (Workflow { permissions: r.staged().permissions, ..self.staged() })),
    {
        let mut b = self;
        grant(&mut b.staged.permissions, Scope::Repository, PermissionValue::Write);
        b
    }

    /// Grants read access on `security`.
    pub fn security_read_permission(self) -> (r: WorkflowBuilder)
        ensures
            r.staged().permissions == Option::Some(granted(self.staged().permissions, Scope::Security, PermissionValue::Read)),
            (r.staged() == (Workflow { permissions: r.staged().permissions, ..self.staged() })),
    {
        let mut b = self;
        grant(&mut b.staged.permissions, Scope::Security, PermissionValue::Read);
        b
    }

    /// Grants write access on `security`.
    pub fn security_write_permission(self) -> (r: WorkflowBuilder)
        ensures
            r.staged().permissions == Option::Some(granted(self.staged().permissions, Scope::Security, PermissionValue::Write)),
            (r.staged() == (Workflow { permissions: r.staged().permissions, ..self.staged() })),
    {
        let mut b = self;
        grant(&mut b.staged.permissions, Scope::Security, PermissionValue::Write);
        b
    }

    /// Grants read access on `statuses`.
    pub fn statuses_read_permission(self) -> (r: WorkflowBuilder)
        ensures
            r.staged().permissions == Option::Some(granted(self.staged().permissions, Scope::Statuses, PermissionValue::Read)),
            (r.staged() == (Workflow { permissions: r.staged().permissions, ..self.staged() })),
    {
        let mut b = self;
        grant(&mut b.staged.permissions, Scope::Statuses, PermissionValue::Read);
        b
    }

    /// Grants write access on `statuses`.
    pub fn statuses_write_permission(self) -> (r: WorkflowBuilder)
        ensures
            r.staged().permissions == Option::Some(granted(self.staged().permissions, Scope::Statuses, PermissionValue::Write)),
            (r.staged() == (Workflow { permissions: r.staged().permissions, ..self.staged() })),
    {
        let mut b = self;
        grant(&mut b.staged.permissions, Scope::Statuses, PermissionValue::Write);
        b
    }

    /// Sets `key` to `value` in `env`.
    pub fn env_var(self, key: &str, value: &str) -> (r: WorkflowBuilder)
        requires
            self.staged().wf(),
        ensures
            r.staged().wf(),
            r.staged().env.view() == self.staged().env.view().insert(key@, r.staged().env.view()[key@]),
            r.staged().env.view()[key@]@ == value@,
            (r.staged() == (Workflow { env: r.staged().env, ..self.staged() })),
    {
        let mut b = self;
        b.staged.env.insert(key.to_owned(), value.to_owned());
        b
    }

    /// Sets `key` to `value` in `jobs`.
    pub fn add_job(self, key: &str, value: Job) -> (r: WorkflowBuilder)
        requires
            self.staged().wf(),
        ensures
            r.staged().wf(),
            r.staged().jobs.view() == self.staged().jobs.view().insert(key@, value),
            (r.staged() == (Workflow { jobs: r.staged().jobs, ..self.staged() })),
    {
        let mut b = self;
        b.staged.jobs.insert(key.to_owned(), value);
        b
    }

    /// Sets the `pull_request` trigger.
    pub fn on_pull_request(self, trigger: PullRequest) -> (r: WorkflowBuilder)
        ensures
            (r.staged().on == (Triggers { pull_request: Option::Some(trigger), ..self.staged().on })),
            (r.staged() == (Workflow { on: r.staged().on, ..self.staged() })),
    {
        let mut b = self;
        b.staged.on.pull_request = Option::Some(trigger);
        b
    }

    /// Sets the `pull_request_target` trigger.
    pub fn on_pull_request_target(self, trigger: PullRequest) -> (r: WorkflowBuilder)
        ensures
            (r.staged().on == (Triggers { pull_request_target: Option::Some(trigger), ..self.staged().on })),
            (r.staged() == (Workflow { on: r.staged().on, ..self.staged() })),
    {
        let mut b = self;
        b.staged.on.pull_request_target = Option::Some(trigger);
        b
    }

    /// Sets the `push` trigger.
    pub fn on_push(self, trigger: Push) -> (r: WorkflowBuilder)
        ensures
            (r.staged().on == (Triggers { push: Option::Some(trigger), ..self.staged().on })),
            (r.staged() == (Workflow { on: r.staged().on, ..self.staged() })),
    {
        let mut b = self;
        b.staged.on.push = Option::Some(trigger);
        b
    }

    /// Sets the `schedule` trigger.
    pub fn on_schedule(self, trigger: Schedule) -> (r: WorkflowBuilder)
        ensures
            (r.staged().on == (Triggers { schedule: Option::Some(trigger), ..self.staged().on })),
            (r.staged() == (Workflow { on: r.staged().on, ..self.staged() })),
    {
        let mut b = self;
        b.staged.on.schedule = Option::Some(trigger);
        b
    }

    /// Sets the `workflow_call` trigger.
    pub fn on_workflow_call(self, trigger: WorkflowCall) -> (r: WorkflowBuilder)
        ensures
            (r.staged().on == (Triggers { workflow_call: Option::Some(trigger), ..self.staged().on })),
            (r.staged() == (Workflow { on: r.staged().on, ..self.staged() })),
    {
        let mut b = self;
        b.staged.on.workflow_call = Option::Some(trigger);
        b
    }

    /// Sets the `workflow_dispatch` trigger.
    pub fn on_workflow_dispatch(self, trigger: WorkflowDispatch) -> (r: WorkflowBuilder)
        ensures
            (r.staged().on == (Triggers { workflow_dispatch: Option::Some(trigger), ..self.staged().on })),
            (r.staged() == (Workflow { on: r.staged().on, ..self.staged() })),
    {
        let mut b = self;
        b.staged.on.workflow_dispatch = Option::Some(trigger);
        b
    }

    /// Sets the default shell of `run` steps.
    pub fn default_run_shell(self, value: &str) -> (r: WorkflowBuilder)
        ensures
            r.staged().defaults.run.shell is Some,
            r.staged().defaults.run.shell->Some_0@ == value@,
            (r.staged().defaults.run == (RunDefaults { shell: r.staged().defaults.run.shell, ..self.staged().defaults.run })),
            (r.staged() == (Workflow { defaults: r.staged().defaults, ..self.staged() })),
    {
        let mut b = self;
        b.staged.defaults.run.shell = Option::Some(value.to_owned());
        b
    }

    /// Sets the default working directory of `run` steps.
    pub fn default_run_cwd(self, value: &str) -> (r: WorkflowBuilder)
        ensures
            r.staged().defaults.run.working_directory is Some,
            r.staged().defaults.run.working_directory->Some_0@ == value@,
            (r.staged().defaults.run == (RunDefaults { working_directory: r.staged().defaults.run.working_directory, ..self.staged().defaults.run })),
            (r.staged() == (Workflow { defaults: r.staged().defaults, ..self.staged() })),
    {
        let mut b = self;
        b.staged.defaults.run.working_directory = Option::Some(value.to_owned());
        b
    }

    /// Sets the concurrency group.
    pub fn concurrency_group(self, group: Value) -> (r: WorkflowBuilder)
        ensures
            r.staged().concurrency.group == Option::Some(group),
            r.staged().concurrency.cancel_in_progress == self.staged().concurrency.cancel_in_progress,
            (r.staged() == (Workflow { concurrency: r.staged().concurrency, ..self.staged() })),
    {
        let mut b = self;
        b.staged.concurrency.group = Option::Some(group);
        b
    }

    /// Asks that runs still in progress in the group be cancelled.
    pub fn concurrency_cancel_in_progress(self) -> (r: WorkflowBuilder)
        ensures
            r.staged().concurrency.cancel_in_progress == Option::Some(yaml_bool(true)),
            r.staged().concurrency.group == self.staged().concurrency.group,
            (r.staged() == (Workflow { concurrency: r.staged().concurrency, ..self.staged() })),
    {
        let mut b = self;
        b.staged.concurrency.cancel_in_progress = Option::Some(bool_value(true));
        b
    }

}

impl Workflow {
    /// `d` is the document of this value: the fields that are not empty,
    /// in declaration order under their written keys, each with its own document.
    pub open spec fn documented_by(&self, d: Doc) -> bool {
        &&& d is Fields
        &&& keys_of(d) == opt_key(true, "name"@)
            + opt_key(self.run_name is Some, "run-name"@)
            + opt_key(!self.on.is_empty_spec(), "on"@)
            + opt_key((self.permissions is Some && !self.permissions->Some_0.is_empty_spec()), "permissions"@)
            + opt_key(self.env.keys().len() > 0, "env"@)
            + opt_key(!self.defaults.is_empty_spec(), "defaults"@)
            + opt_key(!self.concurrency.is_empty_spec(), "concurrency"@)
            + opt_key(self.jobs.keys().len() > 0, "jobs"@)
        &&& self.documents_part_0(entries_of(d))
        &&& self.documents_part_1(entries_of(d))
    }

    /// Each of `name`, `run-name`, `on`, `permissions`, `env`, `defaults`, `concurrency` that is not empty stands in `fs` with its document.
    pub open spec fn documents_part_0(&self, fs: Seq<(String, Doc)>) -> bool {
        &&& true ==> holds_in(fs, "name"@, |c: Doc| is_text(c, self.name@))
        &&& self.run_name is Some ==> holds_in(fs, "run-name"@, |c: Doc| is_text(c, self.run_name->Some_0@))
        &&& !self.on.is_empty_spec() ==> holds_in(fs, "on"@, |c: Doc| self.on.documented_by(c))
        &&& (self.permissions is Some && !self.permissions->Some_0.is_empty_spec()) ==> holds_in(fs, "permissions"@, |c: Doc| self.permissions->Some_0.documented_by(c))
        &&& self.env.keys().len() > 0 ==> holds_in(fs, "env"@, |c: Doc| is_text_map(c, self.env))
        &&& !self.defaults.is_empty_spec() ==> holds_in(fs, "defaults"@, |c: Doc| self.defaults.documented_by(c))
        &&& !self.concurrency.is_empty_spec() ==> holds_in(fs, "concurrency"@, |c: Doc| self.concurrency.documented_by(c))
    }

    proof fn lemma_part_0_kept(&self, a: Seq<(String, Doc)>, b: Seq<(String, Doc)>)
        requires
            self.documents_part_0(a),
            b.len() >= a.len(),
            forall|i: int| 0 <= i < a.len() ==> #[trigger] b[i] == a[i],
        ensures
            self.documents_part_0(b),
    {
        if true {
            let i = choose|i: int| 0 <= i < a.len() && a[i].0@ == "name"@ && is_text(a[i].1, self.name@);
            assert(b[i] == a[i]);
        }
        if self.run_name is Some {
            let i = choose|i: int| 0 <= i < a.len() && a[i].0@ == "run-name"@ && is_text(a[i].1, self.run_name->Some_0@);
            assert(b[i] == a[i]);
        }
        if !self.on.is_empty_spec() {
            let i = choose|i: int| 0 <= i < a.len() && a[i].0@ == "on"@ && self.on.documented_by(a[i].1);
            assert(b[i] == a[i]);
        }
        if (self.permissions is Some && !self.permissions->Some_0.is_empty_spec()) {
            let i = choose|i: int| 0 <= i < a.len() && a[i].0@ == "permissions"@ && self.permissions->Some_0.documented_by(a[i].1);
            assert(b[i] == a[i]);
        }
        if self.env.keys().len() > 0 {
            let i = choose|i: int| 0 <= i < a.len() && a[i].0@ == "env"@ && is_text_map(a[i].1, self.env);
            assert(b[i] == a[i]);
        }
        if !self.defaults.is_empty_spec() {
            let i = choose|i: int| 0 <= i < a.len() && a[i].0@ == "defaults"@ && self.defaults.documented_by(a[i].1);
            assert(b[i] == a[i]);
        }
        if !self.concurrency.is_empty_spec() {
            let i = choose|i: int| 0 <= i < a.len() && a[i].0@ == "concurrency"@ && self.concurrency.documented_by(a[i].1);
            assert(b[i] == a[i]);
        }
    }

    #[verifier::spinoff_prover]
    #[verifier::rlimit(100)]
    fn push_doc_fields_0(&self, fs: &mut Vec<(String, Doc)>)
        ensures
            entry_keys(final(fs)@) == entry_keys(old(fs)@) + opt_key(true, "name"@)
                + opt_key(self.run_name is Some, "run-name"@)
                + opt_key(!self.on.is_empty_spec(), "on"@)
                + opt_key((self.permissions is Some && !self.permissions->Some_0.is_empty_spec()), "permissions"@)
                + opt_key(self.env.keys().len() > 0, "env"@)
                + opt_key(!self.defaults.is_empty_spec(), "defaults"@)
                + opt_key(!self.concurrency.is_empty_spec(), "concurrency"@),
            final(fs)@.len() >= old(fs)@.len(),
            forall|i: int| 0 <= i < old(fs)@.len() ==> #[trigger] final(fs)@[i] == old(fs)@[i],
            self.documents_part_0(final(fs)@),
    {
        // Each value is built whether or not its field is written; `push_opt`
        // drops the ones that are left out.
        let ghost at0: int = fs@.len() as int;
        let w0 = true;
        let c0 = Doc::Text(self.name.clone());
        push_opt(fs, w0, "name", c0);
        let ghost at1: int = fs@.len() as int;
        let w1 = self.run_name.is_some();
        let c1 = match &self.run_name { Option::Some(x) => Doc::Text(x.clone()), Option::None => Doc::Flag(false) };
        push_opt(fs, w1, "run-name", c1);
        let ghost at2: int = fs@.len() as int;
        let w2 = !self.on.is_empty();
        let c2 = self.on.to_doc();
        push_opt(fs, w2, "on", c2);
        let ghost at3: int = fs@.len() as int;
        let w3 = match &self.permissions { Option::Some(x) => !x.is_empty(), Option::None => false };
        let c3 = match &self.permissions { Option::Some(x) => x.to_doc(), Option::None => Doc::Flag(false) };
        push_opt(fs, w3, "permissions", c3);
        let ghost at4: int = fs@.len() as int;
        let w4 = self.env.len() > 0;
        let c4 = text_map_doc(&self.env);
        push_opt(fs, w4, "env", c4);
        let ghost at5: int = fs@.len() as int;
        let w5 = !self.defaults.is_empty();
        let c5 = self.defaults.to_doc();
        push_opt(fs, w5, "defaults", c5);
        let ghost at6: int = fs@.len() as int;
        let w6 = !self.concurrency.is_empty();
        let c6 = self.concurrency.to_doc();
        push_opt(fs, w6, "concurrency", c6);
        proof {
            if true {
                assert(fs@[at0].0@ == "name"@);
                assert(is_text(fs@[at0].1, self.name@));
            }
            if self.run_name is Some {
                assert(fs@[at1].0@ == "run-name"@);
                assert(is_text(fs@[at1].1, self.run_name->Some_0@));
            }
            if !self.on.is_empty_spec() {
                assert(fs@[at2].0@ == "on"@);
                assert(self.on.documented_by(fs@[at2].1));
            }
            if (self.permissions is Some && !self.permissions->Some_0.is_empty_spec()) {
                assert(fs@[at3].0@ == "permissions"@);
                assert(self.permissions->Some_0.documented_by(fs@[at3].1));
            }
            if self.env.keys().len() > 0 {
                assert(fs@[at4].0@ == "env"@);
                assert(is_text_map(fs@[at4].1, self.env));
            }
            if !self.defaults.is_empty_spec() {
                assert(fs@[at5].0@ == "defaults"@);
                assert(self.defaults.documented_by(fs@[at5].1));
            }
            if !self.concurrency.is_empty_spec() {
                assert(fs@[at6].0@ == "concurrency"@);
                assert(self.concurrency.documented_by(fs@[at6].1));
            }
        }
    }

    /// Each of `jobs` that is not empty stands in `fs` with its document.
    pub open spec fn documents_part_1(&self, fs: Seq<(String, Doc)>) -> bool {
        &&& self.jobs.keys().len() > 0 ==> holds_in(fs, "jobs"@, |c: Doc| (c is Fields && keys_of(c) == self.jobs.keys() && entries_of(c).len() == self.jobs.values().len() && forall|j: int| 0 <= j < entries_of(c).len() ==> #[trigger] self.jobs.values()[j].documented_by(entries_of(c)[j].1)))
    }

    proof fn lemma_part_1_kept(&self, a: Seq<(String, Doc)>, b: Seq<(String, Doc)>)
        requires
            self.documents_part_1(a),
            b.len() >= a.len(),
            forall|i: int| 0 <= i < a.len() ==> #[trigger] b[i] == a[i],
        ensures
            self.documents_part_1(b),
    {
        if self.jobs.keys().len() > 0 {
            let i = choose|i: int| 0 <= i < a.len() && a[i].0@ == "jobs"@ && (a[i].1 is Fields && keys_of(a[i].1) == self.jobs.keys() && entries_of(a[i].1).len() == self.jobs.values().len() && forall|j: int| 0 <= j < entries_of(a[i].1).len() ==> #[trigger] self.jobs.values()[j].documented_by(entries_of(a[i].1)[j].1));
            assert(b[i] == a[i]);
        }
    }

    #[verifier::spinoff_prover]
    #[verifier::rlimit(100)]
    fn push_doc_fields_1(&self, fs: &mut Vec<(String, Doc)>)
        ensures
            entry_keys(final(fs)@) == entry_keys(old(fs)@) + opt_key(self.jobs.keys().len() > 0, "jobs"@),
            final(fs)@.len() >= old(fs)@.len(),
            forall|i: int| 0 <= i < old(fs)@.len() ==> #[trigger] final(fs)@[i] == old(fs)@[i],
            self.documents_part_1(final(fs)@),
    {
        // Each value is built whether or not its field is written; `push_opt`
        // drops the ones that are left out.
        let ghost at0: int = fs@.len() as int;
        let w0 = self.jobs.len() > 0;
        let c0 = job_map_doc(&self.jobs);
        push_opt(fs, w0, "jobs", c0);
        proof {
            if self.jobs.keys().len() > 0 {
                assert(fs@[at0].0@ == "jobs"@);
                assert((fs@[at0].1 is Fields && keys_of(fs@[at0].1) == self.jobs.keys() && entries_of(fs@[at0].1).len() == self.jobs.values().len() && forall|j: int| 0 <= j < entries_of(fs@[at0].1).len() ==> #[trigger] self.jobs.values()[j].documented_by(entries_of(fs@[at0].1)[j].1)));
            }
        }
    }

    /// The document of this value.
    #[verifier::spinoff_prover]
    #[verifier::rlimit(100)]
    pub fn to_doc(&self) -> (r: Doc)
        ensures
            self.documented_by(r),
    {
        let mut fs: Vec<(String, Doc)> = Vec::new();
        assert(entry_keys(fs@) =~= Seq::<Seq<char>>::empty());
        let ghost before0 = fs@;
        self.push_doc_fields_0(&mut fs);
        assert(entry_keys(fs@) =~= opt_key(true, "name"@)
            + opt_key(self.run_name is Some, "run-name"@)
            + opt_key(!self.on.is_empty_spec(), "on"@)
            + opt_key((self.permissions is Some && !self.permissions->Some_0.is_empty_spec()), "permissions"@)
            + opt_key(self.env.keys().len() > 0, "env"@)
            + opt_key(!self.defaults.is_empty_spec(), "defaults"@)
            + opt_key(!self.concurrency.is_empty_spec(), "concurrency"@));
        let ghost before1 = fs@;
        self.push_doc_fields_1(&mut fs);
        proof {
            self.lemma_part_0_kept(before1, fs@);
        }
        Doc::Fields(fs)
    }
}

fn job_map_doc(m: &KeyedMap<Job>) -> (r: Doc)
    ensures
        r is Fields,
        keys_of(r) == m.keys(),
        entries_of(r).len() == m.values().len(),
        forall|j: int| 0 <= j < entries_of(r).len() ==> #[trigger] m.values()[j].documented_by(entries_of(r)[j].1),
{
    let mut fs: Vec<(String, Doc)> = Vec::new();
    let n = m.len();
    let mut i: usize = 0;
    while i < n
        invariant
            n == m.keys().len(),
            n == m.values().len(),
            i <= n,
            fs@.len() == i,
            forall|j: int| 0 <= j < i ==> (#[trigger] fs@[j]).0@ == m.keys()[j],
            forall|j: int| 0 <= j < i ==> #[trigger] m.values()[j].documented_by(fs@[j].1),
        decreases n - i,
    {
        let (k, v) = m.entry(i);
        fs.push((k.clone(), v.to_doc()));
        i += 1;
    }
    let r = Doc::Fields(fs);
    assert(keys_of(r) =~= m.keys());
    r
}

} // verus!
