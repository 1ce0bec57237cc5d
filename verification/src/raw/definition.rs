//! Raw-actor definitions, their constructions, and the end of an incarnation.

use crate::mailbox::cell::MailboxCell;
use crate::mailbox::effects::MailboxEffects;
use crate::mailbox::model::{no_effects, EffectsModel};
use crate::policy::{or_default, ChildMode, CommonOptions, Readiness};
use crate::raw::context::RawContext;
use crate::raw::disposal::{first_of, first_panic, PanicPayload, UnwindPanics};
use crate::raw::latch::LatchTable;
use crate::raw::offload::OffloadResource;
use crate::raw::resources::{tasks_of, Cleanup, RawModel, RawResources};
use vstd::prelude::*;

verus! {

/// Where a construction gets its incarnations from.
#[derive(Debug)]
pub enum DefinitionSource<F, O> {
    /// A factory, used for every incarnation.
    Restartable(F),
    /// One instance, until it is taken.
    OneShot(Option<O>),
}

impl<F, O> DefinitionSource<F, O> {
    /// The source once its one instance was taken.
    pub open spec fn taken(self) -> DefinitionSource<F, O> {
        match self {
            DefinitionSource::OneShot(_) => DefinitionSource::OneShot(None),
            DefinitionSource::Restartable(_) => self,
        }
    }

    /// Whether there is one instance only.
    pub fn is_one_shot(&self) -> (one_shot: bool)
        ensures
            one_shot == (*self is OneShot),
    {
        match self {
            DefinitionSource::Restartable(_) => false,
            DefinitionSource::OneShot(_) => true,
        }
    }

    /// The factory.
    pub fn restartable(&self) -> (factory: Option<&F>)
        ensures
            factory == match *self {
                DefinitionSource::Restartable(factory) => Some(&factory),
                DefinitionSource::OneShot(_) => None,
            },
    {
        match self {
            DefinitionSource::Restartable(factory) => Some(factory),
            DefinitionSource::OneShot(_) => None,
        }
    }

    /// Takes the one instance; there is none a second time.
    pub fn take_one_shot(&mut self) -> (instance: Option<O>)
        ensures
            instance == match *old(self) {
                DefinitionSource::OneShot(instance) => instance,
                DefinitionSource::Restartable(_) => None,
            },
            *final(self) == old(self).taken(),
    {
        match self {
            DefinitionSource::Restartable(_) => None,
            DefinitionSource::OneShot(instance) => instance.take(),
        }
    }
}

/// Restartable raw-actor definition.
#[derive(Debug)]
pub struct RawDef<F> {
    /// Makes an actor for each incarnation.
    pub factory: F,
    /// What the definition declares.
    pub options: CommonOptions,
}

/// Consuming one-shot raw-actor definition.
#[derive(Debug)]
pub struct RawOnceDef<R> {
    /// The actor.
    pub actor: R,
    /// What the definition declares.
    pub options: CommonOptions,
}

/// A raw-actor definition ready to be spawned.
#[derive(Debug)]
pub struct RawConstruction<F, R> {
    /// Where incarnations come from.
    pub source: DefinitionSource<F, R>,
    /// What the definition declares.
    pub options: CommonOptions,
    /// The effective readiness mode.
    pub readiness: Readiness,
}

/// What one spawn starts from.
#[derive(Debug)]
pub enum RawSpawn<F, R> {
    /// A factory.
    Restartable(F),
    /// The one instance.
    OneShot(R),
}

/// Whether nothing is declared.
pub open spec fn undeclared(options: CommonOptions) -> bool {
    &&& options.restart is None
    &&& options.shutdown is None
    &&& options.mailbox is None
    &&& options.mailbox_shutdown is None
    &&& options.readiness is None
    &&& options.readiness_deadline is Inherit
    &&& options.retention is None
}

impl<F> RawDef<F> {
    /// Creates a restartable definition from a repeatable actor factory.
    pub fn factory(factory: F) -> (definition: RawDef<F>)
        ensures
            definition.factory == factory,
            undeclared(definition.options),
    {
        RawDef { factory, options: CommonOptions::default() }
    }

    /// The construction of this definition. `declared` is the readiness the
    /// actor type declares; the definition's own comes first.
    pub fn erase<R>(self, declared: Readiness) -> (construction: RawConstruction<F, R>)
        ensures
            construction.source == DefinitionSource::<F, R>::Restartable(self.factory),
            construction.options == self.options,
            construction.readiness == or_default(self.options.readiness, declared),
    {
        RawConstruction {
            source: DefinitionSource::Restartable(self.factory),
            options: self.options,
            readiness: self.options.readiness.unwrap_or(declared),
        }
    }
}

impl<R> RawOnceDef<R> {
    /// Creates a one-shot definition from an owned actor value.
    pub fn new(actor: R) -> (definition: RawOnceDef<R>)
        ensures
            definition.actor == actor,
            undeclared(definition.options),
    {
        RawOnceDef { actor, options: CommonOptions::default() }
    }

    /// The construction of this definition. `declared` is the readiness the
    /// actor type declares; the definition's own comes first.
    pub fn erase<F>(self, declared: Readiness) -> (construction: RawConstruction<F, R>)
        ensures
            construction.source == DefinitionSource::<F, R>::OneShot(Some(self.actor)),
            construction.options == self.options,
            construction.readiness == or_default(self.options.readiness, declared),
    {
        let readiness = self.options.readiness.unwrap_or(declared);
        RawConstruction {
            source: DefinitionSource::OneShot(Some(self.actor)),
            options: self.options,
            readiness,
        }
    }
}

impl<F, R> RawConstruction<F, R> {
    /// What the definition declares.
    pub fn options(&self) -> (options: &CommonOptions)
        ensures
            *options == self.options,
    {
        &self.options
    }

    /// The effective readiness mode.
    pub fn readiness(&self) -> (readiness: Readiness)
        ensures
            readiness == self.readiness,
    {
        self.readiness
    }

    /// Whether there is one incarnation only.
    pub fn one_shot(&self) -> (one_shot: bool)
        ensures
            one_shot == (self.source is OneShot),
    {
        self.source.is_one_shot()
    }

    /// Whether the actor can be recreated.
    pub fn mode(&self) -> (mode: ChildMode)
        ensures
            mode == if self.source is OneShot {
                ChildMode::OneShot
            } else {
                ChildMode::Restartable
            },
    {
        if self.one_shot() {
            ChildMode::OneShot
        } else {
            ChildMode::Restartable
        }
    }

    /// What the next incarnation starts from. A one-shot construction spawns
    /// once.
    pub fn take_spawn(&mut self) -> (spawn: RawSpawn<F, R>)
        where F: Clone
        requires
            old(self).source matches DefinitionSource::OneShot(instance) ==> instance is Some,
        ensures
            match old(self).source {
                DefinitionSource::Restartable(factory) => {
                    &&& *final(self) == *old(self)
                    &&& spawn matches RawSpawn::Restartable(shared)
                    &&& cloned(factory, shared)
                },
                DefinitionSource::OneShot(instance) => spawn == RawSpawn::<F, R>::OneShot(
                    instance->Some_0,
                ) && *final(self) == (RawConstruction {
                    source: DefinitionSource::OneShot(None),
                    ..*old(self)
                }),
            },
    {
        if let Some(factory) = self.source.restartable() {
            return RawSpawn::Restartable(factory.clone());
        }
        match self.source.take_one_shot() {
            Some(instance) => RawSpawn::OneShot(instance),
            None => vstd::pervasive::unreached(),
        }
    }
}

/// A one-shot construction spawns at most once, a restartable one every time.
pub proof fn law_a_one_shot_construction_spawns_once<F, O>(source: DefinitionSource<F, O>)
    ensures
        source is OneShot ==> source.taken() == DefinitionSource::<F, O>::OneShot(None),
        source is Restartable ==> source.taken() == source,
        source.taken().taken() == source.taken(),
{
}

/// Owns what the end of an incarnation reports on.
#[derive(Debug)]
pub struct RawIncarnationOwner<M, C, W, R> {
    /// The incarnation's context.
    pub raw: RawContext<M, C, W>,
    /// What the actor returned, unless it panicked.
    pub result: Option<R>,
    /// The actor's own panic, which outranks every one of cleanup.
    pub primary_panic: Option<PanicPayload>,
}

impl<M, C, W, R> RawIncarnationOwner<M, C, W, R> {
    /// The owner once the actor's run came to `outcome`.
    pub fn new(raw: RawContext<M, C, W>, outcome: Result<R, PanicPayload>) -> (owner:
        RawIncarnationOwner<M, C, W, R>)
        ensures
            owner.raw == raw,
            outcome matches Ok(result) ==> owner.result == Some(result)
                && owner.primary_panic is None,
            outcome matches Err(payload) ==> owner.result is None && owner.primary_panic == Some(
                payload,
            ),
    {
        match outcome {
            Ok(result) => RawIncarnationOwner { raw, result: Some(result), primary_panic: None },
            Err(payload) => RawIncarnationOwner {
                raw,
                result: None,
                primary_panic: Some(payload),
            },
        }
    }

    /// Closes mailbox intake and freezes what the incarnation owns. Receivers
    /// are woken before anything is destroyed: a destructor can wait for that.
    pub fn freeze(&mut self, mailbox: &mut MailboxCell<M>, latches: &mut LatchTable) -> (outcome: (
        MailboxEffects<M>,
        Vec<Cleanup<M, C, W>>,
    ))
        requires
            old(self).raw.wf(*old(latches)),
            old(mailbox)@.wf(),
        ensures
            final(self).raw.wf(*final(latches)),
            final(mailbox)@.wf(),
            final(self).raw.same_besides_resources(old(self).raw),
            *final(self) == (RawIncarnationOwner { raw: final(self).raw, ..*old(self) }),
            final(self).raw.resources@ == old(self).raw.resources@.frozen(),
            final(self).raw.resources.events.pulsed == old(self).raw.resources.events.pulsed,
            final(latches)@ == old(self).raw.resources@.frozen_latches(old(latches)@),
            final(mailbox)@ == old(mailbox)@.frozen(old(self).raw.receiver.incarnation),
            outcome.0@ == (EffectsModel::<M> {
                pulse: old(mailbox)@.frozen(old(self).raw.receiver.incarnation) != old(mailbox)@,
                ..no_effects()
            }),
            outcome.1@ == old(self).raw.resources.freeze_steps(old(latches)@),
    {
        self.raw.freeze_intake(mailbox, latches)
    }

    /// Retains what freezing raised: `steps` from what was owned, in order,
    /// then `mailbox` from waking receivers, which comes second although it ran
    /// first.
    pub fn settle_freeze(
        &mut self,
        steps: &Vec<Option<PanicPayload>>,
        mailbox: Option<PanicPayload>,
    )
        ensures
            *final(self) == (RawIncarnationOwner { raw: final(self).raw, ..*old(self) }),
            final(self).raw.same_besides_resources(old(self).raw),
            final(self).raw.resources@ == (RawModel {
                panic: first_of(
                    first_of(old(self).raw.resources@.panic, first_panic(steps@)),
                    mailbox,
                ),
                ..old(self).raw.resources@
            }),
            final(self).raw.resources == (RawResources {
                panic: final(self).raw.resources.panic,
                ..old(self).raw.resources
            }),
    {
        self.raw.resources.panic.record_all(steps);
        if let Some(payload) = mailbox {
            let _ = self.raw.resources.panic.record(payload);
        }
    }

    /// The tasks to join, in order.
    pub fn begin_join(&mut self) -> (tasks: Vec<u64>)
        ensures
            tasks@ == tasks_of(old(self).raw.resources@.offloads),
            *final(self) == (RawIncarnationOwner { raw: final(self).raw, ..*old(self) }),
            final(self).raw.same_besides_resources(old(self).raw),
            final(self).raw.resources@ == (RawModel {
                offloads: old(self).raw.resources@.offloads.map_values(
                    |offload: OffloadResource<W>| OffloadResource { task: None, ..offload },
                ),
                ..old(self).raw.resources@
            }),
            final(self).raw.resources.timers == old(self).raw.resources.timers,
            final(self).raw.resources.events == old(self).raw.resources.events,
    {
        self.raw.resources.take_tasks()
    }

    /// Ends the incarnation: the context is destroyed before the actor, and the
    /// actor's own panic comes before any of cleanup. `dropped` is what the two
    /// destructions raised.
    pub fn finish(
        self,
        dropped_context: Option<PanicPayload>,
        dropped_actor: Option<PanicPayload>,
    ) -> (end: Result<R, PanicPayload>)
        requires
            self.primary_panic is Some <==> self.result is None,
        ensures
            ({
                let cleanup = first_of(
                    first_of(self.raw.resources@.panic, dropped_context),
                    dropped_actor,
                );
                match first_of(self.primary_panic, cleanup) {
                    Some(payload) => end == Err::<R, PanicPayload>(payload),
                    None => end == Ok::<R, PanicPayload>(self.result->Some_0),
                }
            }),
    {
        let mut raw = self.raw;
        if let Some(payload) = dropped_context {
            let _ = raw.resources.panic.record(payload);
        }
        if let Some(payload) = dropped_actor {
            let _ = raw.resources.panic.record(payload);
        }
        let panics = UnwindPanics {
            primary: self.primary_panic,
            cleanup: raw.resources.panic.take(),
        };
        match panics.preferred() {
            Some(payload) => Err(payload),
            None => match self.result {
                Some(result) => Ok(result),
                None => vstd::pervasive::unreached(),
            },
        }
    }
}

/// A panic is never masked: the actor's own outranks every one of cleanup, and
/// among those the first retained wins.
pub proof fn law_a_panic_is_never_masked(
    primary: Option<PanicPayload>,
    retained: Option<PanicPayload>,
    steps: Seq<Option<PanicPayload>>,
    mailbox: Option<PanicPayload>,
)
    ensures
        ({
            let cleanup = first_of(first_of(retained, first_panic(steps)), mailbox);
            let resumed = first_of(primary, cleanup);
            &&& primary is Some ==> resumed == primary
            &&& primary is None && retained is Some ==> resumed == retained
            &&& primary is None && retained is None && first_panic(steps) is Some ==> resumed
                == first_panic(steps)
            &&& resumed is None <==> primary is None && retained is None && first_panic(steps) is None
                && mailbox is None
        }),
{
}

} // verus!
