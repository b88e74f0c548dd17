//! Fluent assembly of a [`TaskDefinition`] that is valid by construction: a
//! definition that builds is a definition that validates.
use vstd::prelude::*;

use crate::error::{Error, ErrorKind};
use crate::model::action::Action;
use crate::model::principal::Principal;
use crate::model::settings::TaskSettings;
use crate::model::trigger::Trigger;
use crate::model::{Actions, CollectionKind, CollectionLimitError, TaskDefinition, Triggers};
use crate::validation::{definition_findings, diags_view, DiagnosticLevel};
use crate::{MAX_ACTIONS, MAX_TRIGGERS};

verus! {

/// Assembles a [`TaskDefinition`]. It holds no scheduling rules of its own:
/// [`TaskBuilder::build`] applies the native collection limits and then the
/// same validation used everywhere else.
pub struct TaskBuilder {
    definition: TaskDefinition,
    actions: Vec<Action>,
    triggers: Vec<Trigger>,
}

/// Whether a definition has no error finding.
pub open spec fn definition_valid(d: TaskDefinition) -> bool {
    forall|i: int| 0 <= i < definition_findings(d).len() ==> (#[trigger] definition_findings(d)[i]).level != DiagnosticLevel::Error
}

impl TaskBuilder {
    /// The definition parts other than actions and triggers.
    pub closed spec fn base(&self) -> TaskDefinition {
        self.definition
    }

    /// The actions, in order.
    pub closed spec fn actions(&self) -> Seq<Action> {
        self.actions@
    }

    /// The triggers, in order.
    pub closed spec fn triggers(&self) -> Seq<Trigger> {
        self.triggers@
    }

    /// Whether `d` is what this builder assembles: its actions, its
    /// triggers, and its other parts.
    pub open spec fn assembles(&self, d: TaskDefinition) -> bool {
        &&& d.actions@ == self.actions()
        &&& d.triggers@ == self.triggers()
        &&& d.schema_version == self.base().schema_version
        &&& d.registration == self.base().registration
        &&& d.principal == self.base().principal
        &&& d.settings == self.base().settings
        &&& d.data == self.base().data
        &&& d.extensions == self.base().extensions
    }

    /// Starts from the default definition with one action.
    pub fn new(action: Action) -> (b: Self)
        ensures
            b.actions() == seq![action],
            b.triggers().len() == 0,
    {
        let mut actions = Vec::new();
        actions.push(action);
        proof {
            assert(actions@ =~= seq![action]);
        }
        TaskBuilder { definition: TaskDefinition::default(), actions, triggers: Vec::new() }
    }

    /// Appends one action. Actions run in the order they are added.
    pub fn action(self, action: Action) -> (b: Self)
        ensures
            b.actions() == self.actions().push(action),
            b.triggers() == self.triggers(),
            b.base() == self.base(),
    {
        let mut b = self;
        b.actions.push(action);
        b
    }

    /// Appends one trigger.
    pub fn trigger(self, trigger: Trigger) -> (b: Self)
        ensures
            b.triggers() == self.triggers().push(trigger),
            b.actions() == self.actions(),
            b.base() == self.base(),
    {
        let mut b = self;
        b.triggers.push(trigger);
        b
    }

    /// Replaces the security principal.
    pub fn run_as(self, principal: Principal) -> (b: Self)
        ensures
            b.base() == (TaskDefinition { principal, ..self.base() }),
            b.actions() == self.actions(),
            b.triggers() == self.triggers(),
    {
        let mut b = self;
        b.definition.principal = principal;
        b
    }

    /// Replaces the runtime settings.
    pub fn settings(self, settings: TaskSettings) -> (b: Self)
        ensures
            b.base() == (TaskDefinition { settings, ..self.base() }),
            b.actions() == self.actions(),
            b.triggers() == self.triggers(),
    {
        let mut b = self;
        b.definition.settings = settings;
        b
    }

    /// Sets the description shown by Task Scheduler.
    pub fn description(self, description: &str) -> (b: Self)
        ensures
            crate::text::opt_view(b.base().registration.description) == Some(description@),
            b.base() == (TaskDefinition {
                registration: crate::model::RegistrationInfo { description: b.base().registration.description, ..self.base().registration },
                ..self.base()
            }),
            b.actions() == self.actions(),
            b.triggers() == self.triggers(),
    {
        let mut b = self;
        b.definition.registration.description = Some(description.to_owned());
        b
    }

    /// Sets the author recorded in the registration metadata.
    pub fn author(self, author: &str) -> (b: Self)
        ensures
            crate::text::opt_view(b.base().registration.author) == Some(author@),
            b.base() == (TaskDefinition {
                registration: crate::model::RegistrationInfo { author: b.base().registration.author, ..self.base().registration },
                ..self.base()
            }),
            b.actions() == self.actions(),
            b.triggers() == self.triggers(),
    {
        let mut b = self;
        b.definition.registration.author = Some(author.to_owned());
        b
    }

    /// Applies the native action and trigger limits, then validation.
    /// Warnings do not fail the build; an error keeps every finding.
    pub fn build(self) -> (r: Result<TaskDefinition, Error>)
        ensures
            match r {
                Ok(d) => self.assembles(d) && self.actions().len() <= MAX_ACTIONS
                    && self.triggers().len() <= MAX_TRIGGERS && definition_valid(d),
                Err(e) => e@.kind == ErrorKind::InvalidDefinition && if self.actions().len() > MAX_ACTIONS {
                    e@.message == crate::model::collection_message(CollectionLimitError {
                        kind: CollectionKind::Actions,
                        actual: self.actions().len() as usize,
                        maximum: MAX_ACTIONS,
                    }) && e@.diagnostics.len() == 0
                } else if self.triggers().len() > MAX_TRIGGERS {
                    e@.message == crate::model::collection_message(CollectionLimitError {
                        kind: CollectionKind::Triggers,
                        actual: self.triggers().len() as usize,
                        maximum: MAX_TRIGGERS,
                    }) && e@.diagnostics.len() == 0
                } else {
                    &&& e@.operation == Some("TaskBuilder::build"@)
                    &&& forall|d: TaskDefinition| #[trigger] self.assembles(d) ==> !definition_valid(d)
                        && diags_view(e@.diagnostics) == definition_findings(d)
                },
            },
    {
        let TaskBuilder { definition, actions, triggers } = self;
        let actions = match Actions::new(actions) {
            Ok(a) => a,
            Err(e) => {
                return Err(Error::from(e));
            },
        };
        let triggers = match Triggers::new(triggers) {
            Ok(t) => t,
            Err(e) => {
                return Err(Error::from(e));
            },
        };
        let definition = TaskDefinition { actions, triggers, ..definition };
        let report = definition.validate();
        if report.is_valid() {
            proof {
                assert forall|i: int| 0 <= i < definition_findings(definition).len() implies (#[trigger] definition_findings(definition)[i]).level != DiagnosticLevel::Error by {
                    assert(diags_view(report.diagnostics@)[i] == crate::validation::diag_view(report.diagnostics@[i]));
                }
            }
            return Ok(definition);
        }
        proof {
            let i = choose|i: int| 0 <= i < report.diagnostics@.len() && report.diagnostics@[i].level == DiagnosticLevel::Error;
            assert(diags_view(report.diagnostics@)[i] == crate::validation::diag_view(report.diagnostics@[i]));
            assert forall|d: TaskDefinition| #[trigger] self.assembles(d) implies !definition_valid(d)
                && definition_findings(d) == definition_findings(definition) by {
                assert(d.actions@ == definition.actions@ && d.triggers@ == definition.triggers@);
                assert(definition_findings(d) == definition_findings(definition));
                assert(definition_findings(d)[i].level == DiagnosticLevel::Error);
            }
        }
        let errors = report.errors();
        let mut message = String::new();
        if errors.len() > 0 {
            message.append(errors[0].path.as_str());
            message.append(": ");
            message.append(errors[0].message.as_str());
        } else {
            message.append("the task definition is not valid");
        }
        Err(Error::new(ErrorKind::InvalidDefinition, message.as_str()).with_operation("TaskBuilder::build").with_validation(report))
    }
}


impl TaskDefinition {
    /// Starts building a definition around its first action.
    pub fn builder(action: Action) -> (b: TaskBuilder)
        ensures
            b.actions() == seq![action],
            b.triggers().len() == 0,
    {
        TaskBuilder::new(action)
    }
}

} // verus!
