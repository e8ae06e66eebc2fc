//! The state of the application's screens.

use vstd::prelude::*;
use crate::persistence::PersistentObject;
use crate::quiz::{
    FlagNameCountryQuizSettings, FlagNameCountryQuizView, Quiz, QuizSettingsTrait, QuizState,
    QuizTrait,
};

verus! {

/// The screens of the application.
#[derive(Debug, Copy, Clone, PartialEq, Eq, Structural)]
pub enum UIView {
    MainMenu,
    StudyMenu,
    Explore,
    QuizMenu,
    QuizRun,
}

impl Default for UIView {
    fn default() -> (view: Self)
        ensures
            view == UIView::MainMenu,
    {
        UIView::MainMenu
    }
}

/// The main menu keeps nothing.
#[derive(Debug, Copy, Clone, PartialEq, Eq, Structural)]
pub struct MainMenuState;

/// The study menu keeps nothing.
#[derive(Debug, Copy, Clone, PartialEq, Eq, Structural)]
pub struct StudyMenuState;

/// What the quiz menu keeps: which quizzes are switched on, and how they
/// are set up.
#[derive(Debug, Copy, Clone, PartialEq, Eq, Structural)]
pub struct QuizMenuState {
    pub flag_name_quiz_settings: FlagNameCountryQuizSettings,
    pub flag_name_quiz_enabled: bool,
}

/// What is kept of the quiz menu.
#[derive(Debug, Copy, Clone, PartialEq, Eq, Structural)]
pub struct QuizMenuStatePersist {
    pub flag_name_quiz_settings: FlagNameCountryQuizSettings,
    pub flag_name_quiz_enabled: bool,
}

impl Default for QuizMenuState {
    fn default() -> (state: Self)
        ensures
            state.flag_name_quiz_settings.max_tries == 1,
            !state.flag_name_quiz_enabled,
    {
        QuizMenuState {
            flag_name_quiz_settings: FlagNameCountryQuizSettings { max_tries: 1 },
            flag_name_quiz_enabled: false,
        }
    }
}

impl QuizMenuState {
    /// One quiz for every kind that is switched on, each not yet begun.
    pub fn build_quizzes(&self) -> (quizzes: Vec<Quiz>)
        ensures
            quizzes@.len() == if self.flag_name_quiz_enabled { 1nat } else { 0nat },
            self.flag_name_quiz_enabled ==> quizzes@[0].flag_quiz()@
                == FlagNameCountryQuizView::fresh(self.flag_name_quiz_settings),
    {
        let mut quizzes: Vec<Quiz> = Vec::new();
        if self.flag_name_quiz_enabled {
            quizzes.push(self.flag_name_quiz_settings.create_quiz());
        }
        quizzes
    }

    /// Whether any kind of quiz is switched on.
    pub fn has_at_least_one_quiz_enabled(&self) -> (enabled: bool)
        ensures
            enabled == self.flag_name_quiz_enabled,
    {
        self.flag_name_quiz_enabled
    }
}

impl PersistentObject for QuizMenuState {
    type PersistentState = QuizMenuStatePersist;

    open spec fn persisted_as(&self, state: QuizMenuStatePersist) -> bool {
        &&& state.flag_name_quiz_settings == self.flag_name_quiz_settings
        &&& state.flag_name_quiz_enabled == self.flag_name_quiz_enabled
    }

    fn save_state(&self) -> (state: QuizMenuStatePersist) {
        QuizMenuStatePersist {
            flag_name_quiz_settings: self.flag_name_quiz_settings,
            flag_name_quiz_enabled: self.flag_name_quiz_enabled,
        }
    }

    fn load_state(state: QuizMenuStatePersist) -> (menu: Self) {
        QuizMenuState {
            flag_name_quiz_settings: state.flag_name_quiz_settings,
            flag_name_quiz_enabled: state.flag_name_quiz_enabled,
        }
    }
}

/// `rand::Rng::random_range` over `0..len` with the thread's random
/// generator: some number below `len`. The range must not be empty.
#[verifier::external_body]
fn random_below(len: usize) -> (picked: usize)
    requires
        len > 0,
    ensures
        picked < len,
{
    rand::Rng::random_range(&mut rand::rng(), 0..len)
}

/// The quizzes of a run and which of them is being asked.
#[derive(Debug)]
pub struct QuizRunState {
    quizzes: Vec<Quiz>,
    stats_collected: bool,
    active_quiz: usize,
}

/// What is kept of a run.
#[derive(Debug)]
pub struct QuizRunStatePersist {
    pub quizzes: Vec<QuizState>,
    pub stats_collected: bool,
    pub active_quiz: usize,
}

impl Default for QuizRunState {
    fn default() -> (run: Self)
        ensures
            run.quizzes().len() == 0,
            !run.stats_collected(),
            run.active_quiz() == 0,
    {
        QuizRunState { quizzes: Vec::new(), stats_collected: false, active_quiz: 0 }
    }
}

impl Default for QuizRunStatePersist {
    fn default() -> (state: Self)
        ensures
            state.quizzes@.len() == 0,
            !state.stats_collected,
            state.active_quiz == 0,
    {
        QuizRunStatePersist { quizzes: Vec::new(), stats_collected: false, active_quiz: 0 }
    }
}

impl QuizRunState {
    /// The quizzes of the run.
    pub closed spec fn quizzes(&self) -> Seq<Quiz> {
        self.quizzes@
    }

    /// Whether the statistics of the quiz being asked have been kept.
    pub closed spec fn stats_collected(&self) -> bool {
        self.stats_collected
    }

    /// The number of the quiz being asked.
    pub closed spec fn active_quiz(&self) -> usize {
        self.active_quiz
    }

    /// The run is over `quizzes` with quiz `active` just begun at `now_ms`
    /// on one of `country_codes`; the other quizzes are as they were.
    pub open spec fn restarted(
        &self,
        quizzes: Seq<Quiz>,
        active: int,
        country_codes: Seq<String>,
        now_ms: u128,
    ) -> bool {
        &&& 0 <= active < quizzes.len()
        &&& self.active_quiz() == active
        &&& !self.stats_collected()
        &&& self.quizzes().len() == quizzes.len()
        &&& forall|i: int|
            0 <= i < quizzes.len() && i != active ==> #[trigger] self.quizzes()[i] == quizzes[i]
        &&& exists|c: int|
            0 <= c < country_codes.len() && self.quizzes()[active].flag_quiz()@
                == quizzes[active].flag_quiz()@.started(#[trigger] country_codes[c]@, now_ms)
    }

    /// Takes over `quizzes` and begins one of them, picked at random.
    pub fn load_quizzes(&mut self, quizzes: Vec<Quiz>, country_codes: &Vec<String>, now_ms: u128)
        requires
            quizzes@.len() > 0,
            country_codes@.len() > 0,
        ensures
            final(self).restarted(
                quizzes@,
                final(self).active_quiz() as int,
                country_codes@,
                now_ms,
            ),
    {
        self.quizzes = quizzes;
        self.randomize_quiz(country_codes, now_ms);
    }

    /// Begins a quiz of the run picked at random.
    pub fn randomize_quiz(&mut self, country_codes: &Vec<String>, now_ms: u128)
        requires
            old(self).quizzes().len() > 0,
            country_codes@.len() > 0,
        ensures
            final(self).restarted(
                old(self).quizzes(),
                final(self).active_quiz() as int,
                country_codes@,
                now_ms,
            ),
    {
        self.active_quiz = random_below(self.quizzes.len());
        self.restart_active_quiz(country_codes, now_ms);
    }

    /// The quiz being asked, to be changed in place.
    pub fn get_active_quiz(&mut self) -> (quiz: &mut Quiz)
        requires
            old(self).active_quiz() < old(self).quizzes().len(),
        ensures
            *quiz == old(self).quizzes()[old(self).active_quiz() as int],
            final(self).quizzes() == old(self).quizzes().update(
                old(self).active_quiz() as int,
                *final(quiz),
            ),
            final(self).active_quiz() == old(self).active_quiz(),
            final(self).stats_collected() == old(self).stats_collected(),
    {
        &mut self.quizzes[self.active_quiz]
    }

    /// Begins the quiz being asked anew.
    pub fn restart_active_quiz(&mut self, country_codes: &Vec<String>, now_ms: u128)
        requires
            old(self).active_quiz() < old(self).quizzes().len(),
            country_codes@.len() > 0,
        ensures
            final(self).restarted(
                old(self).quizzes(),
                old(self).active_quiz() as int,
                country_codes@,
                now_ms,
            ),
    {
        self.stats_collected = false;
        self.get_active_quiz().start(country_codes, now_ms);
    }

    /// Whether the run has a quiz that is being asked.
    pub fn has_active_quiz(&self) -> (has: bool)
        ensures
            has == (self.active_quiz() < self.quizzes().len()),
    {
        self.active_quiz < self.quizzes.len()
    }

    /// Whether the statistics of the quiz being asked have been kept.
    pub fn has_collected_stats(&self) -> (collected: bool)
        ensures
            collected == self.stats_collected(),
    {
        self.stats_collected
    }

    /// Notes that the statistics of the quiz being asked have been kept.
    pub fn mark_stats_collected(&mut self)
        ensures
            final(self).stats_collected(),
            final(self).quizzes() == old(self).quizzes(),
            final(self).active_quiz() == old(self).active_quiz(),
    {
        self.stats_collected = true;
    }
}

impl PersistentObject for QuizRunState {
    type PersistentState = QuizRunStatePersist;

    open spec fn persisted_as(&self, state: QuizRunStatePersist) -> bool {
        &&& state.stats_collected == self.stats_collected()
        &&& state.active_quiz == self.active_quiz()
        &&& state.quizzes@.len() == self.quizzes().len()
        &&& forall|i: int|
            0 <= i < self.quizzes().len() ==> (#[trigger] self.quizzes()[i]).persisted_as(
                state.quizzes@[i],
            )
    }

    fn save_state(&self) -> (state: QuizRunStatePersist) {
        let mut quizzes: Vec<QuizState> = Vec::new();
        let n = self.quizzes.len();
        let mut i: usize = 0;
        while i < n
            invariant
                i <= n,
                n == self.quizzes@.len(),
                quizzes@.len() == i,
                forall|k: int|
                    0 <= k < i ==> (#[trigger] self.quizzes@[k]).persisted_as(quizzes@[k]),
            decreases n - i,
        {
            quizzes.push(self.quizzes[i].save_state());
            i += 1;
        }
        QuizRunStatePersist {
            quizzes,
            stats_collected: self.stats_collected,
            active_quiz: self.active_quiz,
        }
    }

    fn load_state(state: QuizRunStatePersist) -> (run: Self) {
        let ghost kept = state.quizzes@;
        let mut pending = state.quizzes;
        let mut reversed: Vec<Quiz> = Vec::new();
        // States are taken from the back, so the quizzes come out reversed.
        while pending.len() > 0
            invariant
                pending@ == kept.take(pending@.len() as int),
                pending@.len() <= kept.len(),
                reversed@.len() == kept.len() - pending@.len(),
                forall|k: int|
                    0 <= k < reversed@.len() ==> (#[trigger] reversed@[k]).persisted_as(
                        kept[kept.len() - 1 - k],
                    ),
            decreases pending@.len(),
        {
            let ghost at = pending@.len() - 1;
            let one = pending.pop().unwrap();
            assert(one == kept[at]);
            reversed.push(Quiz::load_state(one));
            proof {
                assert(pending@ =~= kept.take(pending@.len() as int));
            }
        }
        let ghost turned = reversed@;
        let mut quizzes: Vec<Quiz> = Vec::new();
        while reversed.len() > 0
            invariant
                reversed@ == turned.take(reversed@.len() as int),
                reversed@.len() <= turned.len(),
                turned.len() == kept.len(),
                quizzes@.len() == turned.len() - reversed@.len(),
                forall|k: int|
                    0 <= k < turned.len() ==> (#[trigger] turned[k]).persisted_as(
                        kept[kept.len() - 1 - k],
                    ),
                forall|k: int|
                    0 <= k < quizzes@.len() ==> (#[trigger] quizzes@[k]).persisted_as(kept[k]),
            decreases reversed@.len(),
        {
            let ghost at = reversed@.len() - 1;
            let one = reversed.pop().unwrap();
            assert(one == turned[at]);
            quizzes.push(one);
            proof {
                assert(reversed@ =~= turned.take(reversed@.len() as int));
            }
        }
        QuizRunState {
            quizzes,
            stats_collected: state.stats_collected,
            active_quiz: state.active_quiz,
        }
    }
}

} // verus!
