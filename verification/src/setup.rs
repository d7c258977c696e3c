//! Making sure that the settings file is there: one decision at a time, between file
//! operations.

use vstd::prelude::*;

use crate::config::{built_in_config, default_text, Config, DefaultConfig};

verus! {

/// How far the work has come.
#[derive(Debug, PartialEq, Eq)]
pub enum SetupState<S = String> {
    /// The executable is being looked up.
    Locating,
    /// The settings file is being looked for in the executable's directory.
    Probing,
    /// The settings file is being created; it will have this content.
    Creating(S),
    /// The content is being written.
    Writing,
    /// There is nothing left to do.
    Finished,
}

/// What a file operation gave.
#[derive(Debug, PartialEq, Eq)]
pub enum SetupEvent<S = String> {
    /// Whether the executable's path has a directory, or why the path is not known.
    Located(Result<bool, S>),
    /// Whether the settings file exists.
    Probed(bool),
    /// Whether the settings file was created, or why not.
    Created(Result<(), S>),
    /// Whether the content was written, or why not.
    Written(Result<(), S>),
}

/// What is to be done next.
#[derive(Debug, PartialEq, Eq)]
pub enum SetupAction<S = String> {
    /// Look for the settings file.
    Probe,
    /// Create the settings file, empty.
    Create,
    /// Write this to the settings file.
    Write(S),
    /// The settings file is there; say so if it is new.
    Ready { created: bool },
    /// Give up, with this message.
    Fail(S),
}

impl View for SetupState {
    type V = SetupState<Seq<char>>;

    open spec fn view(&self) -> SetupState<Seq<char>> {
        match self {
            SetupState::Locating => SetupState::Locating,
            SetupState::Probing => SetupState::Probing,
            SetupState::Creating(content) => SetupState::Creating(content@),
            SetupState::Writing => SetupState::Writing,
            SetupState::Finished => SetupState::Finished,
        }
    }
}

/// The contents of an answer that may be a message.
pub open spec fn answer_view<T>(r: Result<T, String>) -> Result<T, Seq<char>> {
    match r {
        Ok(value) => Ok(value),
        Err(message) => Err(message@),
    }
}

impl View for SetupEvent {
    type V = SetupEvent<Seq<char>>;

    open spec fn view(&self) -> SetupEvent<Seq<char>> {
        match self {
            SetupEvent::Located(r) => SetupEvent::Located(answer_view(*r)),
            SetupEvent::Probed(exists) => SetupEvent::Probed(*exists),
            SetupEvent::Created(r) => SetupEvent::Created(answer_view(*r)),
            SetupEvent::Written(r) => SetupEvent::Written(answer_view(*r)),
        }
    }
}

impl View for SetupAction {
    type V = SetupAction<Seq<char>>;

    open spec fn view(&self) -> SetupAction<Seq<char>> {
        match self {
            SetupAction::Probe => SetupAction::Probe,
            SetupAction::Create => SetupAction::Create,
            SetupAction::Write(content) => SetupAction::Write(content@),
            SetupAction::Ready { created } => SetupAction::Ready { created: *created },
            SetupAction::Fail(message) => SetupAction::Fail(message@),
        }
    }
}

/// The event answers the action that led to the state.
pub open spec fn setup_expects<S>(state: SetupState<S>, event: SetupEvent<S>) -> bool {
    match state {
        SetupState::Locating => event is Located,
        SetupState::Probing => event is Probed,
        SetupState::Creating(_) => event is Created,
        SetupState::Writing => event is Written,
        SetupState::Finished => false,
    }
}

/// What follows when there is no settings file yet, given what a new one would hold.
pub open spec fn creation(default: Result<DefaultConfig<Seq<char>>, Seq<char>>) -> (
    SetupState<Seq<char>>,
    SetupAction<Seq<char>>,
) {
    match default {
        Ok(config) => (SetupState::Creating(default_text(config)), SetupAction::Create),
        Err(message) => (SetupState::Finished, SetupAction::Fail(message)),
    }
}

/// The next state and action. A settings file that exists is left alone; where there
/// is none, one with the default settings is created.
pub open spec fn setup_step(state: SetupState<Seq<char>>, event: SetupEvent<Seq<char>>) -> (
    SetupState<Seq<char>>,
    SetupAction<Seq<char>>,
) {
    match (state, event) {
        (SetupState::Locating, SetupEvent::Located(Ok(true))) => (
            SetupState::Probing,
            SetupAction::Probe,
        ),
        (SetupState::Locating, SetupEvent::Located(Ok(false))) => (
            SetupState::Finished,
            SetupAction::Fail("No exe dir"@),
        ),
        (SetupState::Locating, SetupEvent::Located(Err(message))) => (
            SetupState::Finished,
            SetupAction::Fail("current_exe: "@ + message),
        ),
        (SetupState::Probing, SetupEvent::Probed(true)) => (
            SetupState::Finished,
            SetupAction::Ready { created: false },
        ),
        (SetupState::Probing, SetupEvent::Probed(false)) => creation(built_in_config()),
        (SetupState::Creating(content), SetupEvent::Created(Ok(_))) => (
            SetupState::Writing,
            SetupAction::Write(content),
        ),
        (SetupState::Creating(_), SetupEvent::Created(Err(message))) => (
            SetupState::Finished,
            SetupAction::Fail("create file: "@ + message),
        ),
        (SetupState::Writing, SetupEvent::Written(Ok(_))) => (
            SetupState::Finished,
            SetupAction::Ready { created: true },
        ),
        (SetupState::Writing, SetupEvent::Written(Err(message))) => (
            SetupState::Finished,
            SetupAction::Fail("write file: "@ + message),
        ),
        _ => arbitrary(),
    }
}

/// Decides what follows when there is no settings file yet.
pub fn plan_creation(default: Result<DefaultConfig, String>) -> (r: (SetupState, SetupAction))
    ensures
        (r.0@, r.1@) == creation(
            match default {
                Ok(config) => Ok(config@),
                Err(message) => Err(message@),
            },
        ),
{
    match default {
        Ok(config) => (SetupState::Creating(config.to_string()), SetupAction::Create),
        Err(message) => (SetupState::Finished, SetupAction::Fail(message)),
    }
}

impl Config {
    /// Takes in what a file operation gave and decides what to do next, so that in the
    /// end the settings file is there. Start in `SetupState::Locating`.
    pub fn ensure_config_file(state: SetupState, event: SetupEvent) -> (r: (
        SetupState,
        SetupAction,
    ))
        requires
            setup_expects(state, event),
        ensures
            (r.0@, r.1@) == setup_step(state@, event@),
            r.0 is Finished == (r.1 is Ready || r.1 is Fail),
    {
        match (state, event) {
            (SetupState::Locating, SetupEvent::Located(Ok(has_dir))) => if has_dir {
                (SetupState::Probing, SetupAction::Probe)
            } else {
                (SetupState::Finished, SetupAction::Fail("No exe dir".to_string()))
            },
            (SetupState::Locating, SetupEvent::Located(Err(message))) => (
                SetupState::Finished,
                SetupAction::Fail("current_exe: ".to_string().concat(message.as_str())),
            ),
            (SetupState::Probing, SetupEvent::Probed(exists)) => if exists {
                (SetupState::Finished, SetupAction::Ready { created: false })
            } else {
                plan_creation(DefaultConfig::new())
            },
            (SetupState::Creating(content), SetupEvent::Created(Ok(_))) => (
                SetupState::Writing,
                SetupAction::Write(content),
            ),
            (SetupState::Creating(_), SetupEvent::Created(Err(message))) => (
                SetupState::Finished,
                SetupAction::Fail("create file: ".to_string().concat(message.as_str())),
            ),
            (SetupState::Writing, SetupEvent::Written(Ok(_))) => (
                SetupState::Finished,
                SetupAction::Ready { created: true },
            ),
            (_, SetupEvent::Written(Err(message))) => (
                SetupState::Finished,
                SetupAction::Fail("write file: ".to_string().concat(message.as_str())),
            ),
            (state, _) => {
                assert(false);
                (state, SetupAction::Probe)
            },
        }
    }
}

/// A settings file that exists is left alone: it is created only after it was found
/// missing, it is written only after it was created, and what is written is what was
/// decided then, the default settings.
pub proof fn law_only_a_missing_file_is_written(
    state: SetupState<Seq<char>>,
    event: SetupEvent<Seq<char>>,
)
    requires
        setup_expects(state, event),
    ensures
        setup_step(state, event).1 is Create ==> state is Probing && event
            == SetupEvent::<Seq<char>>::Probed(false) && built_in_config() is Ok && setup_step(
            state,
            event,
        ).0 == SetupState::Creating(default_text(built_in_config()->Ok_0)),
        setup_step(state, event).1 is Write ==> event is Created && state
            == SetupState::Creating(setup_step(state, event).1->Write_0),
        event == SetupEvent::<Seq<char>>::Probed(true) ==> setup_step(state, event) == (
            SetupState::<Seq<char>>::Finished,
            SetupAction::<Seq<char>>::Ready { created: false },
        ),
{
}

/// The work goes from one answer to the next: the executable's directory must be known, a
/// file that is there is enough, and else the default settings are created and written.
/// Whatever fails ends it, with a message that ends in that of the failure.
pub proof fn law_setup_goes_from_answer_to_answer(content: Seq<char>, message: Seq<char>)
    ensures
        setup_step(SetupState::Locating, SetupEvent::Located(Ok(true))) == (
            SetupState::<Seq<char>>::Probing,
            SetupAction::<Seq<char>>::Probe,
        ),
        setup_step(SetupState::Creating(content), SetupEvent::Created(Ok(()))) == (
            SetupState::<Seq<char>>::Writing,
            SetupAction::<Seq<char>>::Write(content),
        ),
        setup_step(SetupState::Writing, SetupEvent::Written(Ok(()))) == (
            SetupState::<Seq<char>>::Finished,
            SetupAction::<Seq<char>>::Ready { created: true },
        ),
        built_in_config() is Ok ==> setup_step(SetupState::Probing, SetupEvent::Probed(false)) == (
            SetupState::<Seq<char>>::Creating(default_text(built_in_config()->Ok_0)),
            SetupAction::<Seq<char>>::Create,
        ),
        built_in_config() is Err ==> setup_step(SetupState::Probing, SetupEvent::Probed(false)) == (
            SetupState::<Seq<char>>::Finished,
            SetupAction::<Seq<char>>::Fail(built_in_config()->Err_0),
        ),
        fails_with(setup_step(SetupState::Locating, SetupEvent::Located(Err(message))), message),
        fails_with(
            setup_step(SetupState::Creating(content), SetupEvent::Created(Err(message))),
            message,
        ),
        fails_with(setup_step(SetupState::Writing, SetupEvent::Written(Err(message))), message),
        fails_with(setup_step(SetupState::Locating, SetupEvent::Located(Ok(false))), seq![]),
{
    let located = setup_step(SetupState::Locating, SetupEvent::Located(Err(message)));
    let created = setup_step(SetupState::Creating(content), SetupEvent::Created(Err(message)));
    let written = setup_step(SetupState::Writing, SetupEvent::Written(Err(message)));
    let nowhere = setup_step(SetupState::Locating, SetupEvent::Located(Ok(false)));
    lemma_ends_in("current_exe: "@, message);
    lemma_ends_in("create file: "@, message);
    lemma_ends_in("write file: "@, message);
    lemma_ends_in("No exe dir"@, seq![]);
    assert("No exe dir"@ + seq![] =~= "No exe dir"@);
    assert(located.1 is Fail && created.1 is Fail && written.1 is Fail && nowhere.1 is Fail);
}

/// The work is over, with a message that ends like this.
pub open spec fn fails_with(
    step: (SetupState<Seq<char>>, SetupAction<Seq<char>>),
    message: Seq<char>,
) -> bool {
    step.0 is Finished && match step.1 {
        SetupAction::Fail(said) => message.is_suffix_of(said),
        _ => false,
    }
}

/// Two texts together end in the second.
proof fn lemma_ends_in(a: Seq<char>, b: Seq<char>)
    ensures
        b.is_suffix_of(a + b),
{
    assert((a + b).skip(a.len() as int) =~= b);
    assert(b =~= (a + b).subrange((a + b).len() - b.len(), (a + b).len() as int));
}

} // verus!
