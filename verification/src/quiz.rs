//! Quizzes and their state.

use vstd::prelude::*;
use crate::data_map::{holds_id, index_of};
use crate::persistence::PersistentObject;
use crate::text::{eq_ignoring_case, same_ignoring_case, text_views, uppercased};
use crate::world_data::WorldStudyData;

verus! {

/// How a flag quiz is set up.
#[derive(Debug, Clone, Copy, PartialEq, Eq, Structural)]
pub struct FlagNameCountryQuizSettings {
    /// How often an answer may be given.
    pub max_tries: u8,
}

impl Default for FlagNameCountryQuizSettings {
    fn default() -> (settings: Self)
        ensures
            settings.max_tries == 1,
    {
        Self { max_tries: 1 }
    }
}

/// When a quiz was begun and ended, in milliseconds.
#[derive(Debug, Clone, Copy, PartialEq, Eq, Structural)]
pub struct QuizStatsCommon {
    pub started_at_ms: u128,
    pub finished_at_ms: u128,
}

/// Statistics that every kind of quiz keeps.
pub trait QuizStatsTrait {
    /// The common part, as proofs see it.
    spec fn common(&self) -> QuizStatsCommon;

    fn get_common(&self) -> (common: &QuizStatsCommon)
        ensures
            *common == self.common(),
    ;
}

/// The statistics of one flag quiz.
#[derive(Debug, Clone, Copy, PartialEq, Eq, Structural)]
pub struct FlagNameCountryQuizStats {
    pub common: QuizStatsCommon,
}

impl QuizStatsTrait for FlagNameCountryQuizStats {
    open spec fn common(&self) -> QuizStatsCommon {
        self.common
    }

    fn get_common(&self) -> (common: &QuizStatsCommon) {
        &self.common
    }
}

/// The statistics of one quiz, by kind.
#[derive(Debug, Clone, Copy, PartialEq, Eq, Structural)]
pub enum QuizStats {
    FlagNameCountry(FlagNameCountryQuizStats),
}

impl QuizStatsTrait for QuizStats {
    open spec fn common(&self) -> QuizStatsCommon {
        match self {
            QuizStats::FlagNameCountry(stats) => stats.common,
        }
    }

    fn get_common(&self) -> (common: &QuizStatsCommon) {
        match self {
            QuizStats::FlagNameCountry(stats) => stats.get_common(),
        }
    }
}

/// What every kind of quiz can do.
pub trait QuizTrait: Sized {
    /// When the quiz was begun; `None` before its start.
    spec fn began_at(&self) -> Option<u128>;

    /// When the quiz last ended.
    spec fn ended_at(&self) -> Option<u128>;

    /// Whether the quiz ended with the right answer; `None` while it runs.
    spec fn outcome(&self) -> Option<bool>;

    /// Begins the quiz at `now_ms` with a country picked at random among
    /// `country_codes`.
    fn start(&mut self, country_codes: &Vec<String>, now_ms: u128)
        requires
            country_codes@.len() > 0,
        ensures
            final(self).began_at() == Some(now_ms),
            final(self).outcome() is None,
            final(self).ended_at() == old(self).ended_at(),
    ;

    /// Ends the quiz at `now_ms`.
    fn finish(&mut self, success: bool, now_ms: u128)
        ensures
            final(self).outcome() == Some(success),
            final(self).ended_at() == Some(now_ms),
            final(self).began_at() == old(self).began_at(),
    ;

    /// Whether the quiz has begun.
    fn has_started(&self) -> (started: bool)
        ensures
            started == self.began_at() is Some,
    ;

    /// How the quiz ended, once it has.
    fn is_successful(&self) -> (success: Option<bool>)
        ensures
            success == self.outcome(),
    ;

    /// Puts the quiz back to before its start.
    fn reset(&mut self)
        ensures
            final(self).began_at() is None,
            final(self).outcome() is None,
            final(self).ended_at() == old(self).ended_at(),
    ;

    /// The statistics of the quiz, once it has begun and ended.
    fn collect_stats(&self) -> (stats: Option<QuizStats>)
        ensures
            stats == match (self.began_at(), self.ended_at()) {
                (Some(started), Some(finished)) => Some(
                    QuizStats::FlagNameCountry(
                        FlagNameCountryQuizStats {
                            common: QuizStatsCommon {
                                started_at_ms: started,
                                finished_at_ms: finished,
                            },
                        },
                    ),
                ),
                _ => None,
            },
    ;
}

/// What the settings of every kind of quiz can do.
pub trait QuizSettingsTrait: Sized {
    /// A quiz with these settings that has not begun.
    fn create_quiz(&self) -> (quiz: Quiz)
        ensures
            quiz.flag_quiz()@.started_at is None,
            quiz.flag_quiz()@.success is None,
    ;
}

/// What proofs see of a flag quiz.
pub struct FlagNameCountryQuizView {
    /// Whether the quiz ended with the right answer; `None` while it runs.
    pub success: Option<bool>,
    pub started_at: Option<u128>,
    pub finished_at: Option<u128>,
    /// The code of the country whose flag is shown.
    pub solution: Option<Seq<char>>,
    /// What has been typed so far.
    pub answer: Seq<char>,
    /// How many answers have been given.
    pub tries: u8,
    pub settings: FlagNameCountryQuizSettings,
}

impl FlagNameCountryQuizView {
    /// A quiz that has not begun.
    pub open spec fn fresh(settings: FlagNameCountryQuizSettings) -> Self {
        FlagNameCountryQuizView {
            success: None,
            started_at: None,
            finished_at: None,
            solution: None,
            answer: Seq::empty(),
            tries: 0,
            settings,
        }
    }

    /// The quiz put back to before its start. The time at which it last
    /// ended is kept.
    pub open spec fn reset(self) -> Self {
        FlagNameCountryQuizView {
            success: None,
            started_at: None,
            solution: None,
            answer: Seq::empty(),
            tries: 0,
            ..self
        }
    }

    /// The quiz begun at `now` with the flag of `solution`.
    pub open spec fn started(self, solution: Seq<char>, now: u128) -> Self {
        FlagNameCountryQuizView {
            started_at: Some(now),
            solution: Some(solution),
            ..self.reset()
        }
    }

    /// The quiz ended at `now`.
    pub open spec fn finished(self, success: bool, now: u128) -> Self {
        FlagNameCountryQuizView { success: Some(success), finished_at: Some(now), ..self }
    }

    /// The quiz after one more answer, which was `right` or not: a right
    /// answer ends it with success, the last allowed wrong answer ends it
    /// without, and any other wrong answer clears what was typed.
    pub open spec fn judged(self, right: bool, now: u128) -> Self {
        let tried = FlagNameCountryQuizView { tries: (self.tries + 1) as u8, ..self };
        if right {
            tried.finished(true, now)
        } else if tried.tries >= self.settings.max_tries {
            tried.finished(false, now)
        } else {
            FlagNameCountryQuizView { answer: Seq::empty(), ..tried }
        }
    }
}

/// What is kept of a flag quiz.
#[derive(Debug)]
pub struct FlagNameCountryQuizState {
    pub success: Option<bool>,
    pub started_at: Option<u128>,
    pub finished_at: Option<u128>,
    pub solution: Option<String>,
    pub answer: String,
    pub tries: u8,
    pub settings: FlagNameCountryQuizSettings,
}

impl View for FlagNameCountryQuizState {
    type V = FlagNameCountryQuizView;

    open spec fn view(&self) -> FlagNameCountryQuizView {
        FlagNameCountryQuizView {
            success: self.success,
            started_at: self.started_at,
            finished_at: self.finished_at,
            solution: match self.solution {
                Some(code) => Some(code@),
                None => None,
            },
            answer: self.answer@,
            tries: self.tries,
            settings: self.settings,
        }
    }
}

impl Default for FlagNameCountryQuizState {
    fn default() -> (state: Self)
        ensures
            state@ == FlagNameCountryQuizView::fresh(
                FlagNameCountryQuizSettings { max_tries: 1 },
            ),
    {
        FlagNameCountryQuizState {
            success: None,
            started_at: None,
            finished_at: None,
            solution: None,
            answer: String::new(),
            tries: 0,
            settings: FlagNameCountryQuizSettings { max_tries: 1 },
        }
    }
}

/// A quiz that shows a flag and asks for the country's name.
#[derive(Debug)]
pub struct FlagNameCountryQuiz {
    success: Option<bool>,
    started_at: Option<u128>,
    finished_at: Option<u128>,
    solution: Option<String>,
    answer: String,
    tries: u8,
    settings: FlagNameCountryQuizSettings,
}

impl View for FlagNameCountryQuiz {
    type V = FlagNameCountryQuizView;

    closed spec fn view(&self) -> FlagNameCountryQuizView {
        FlagNameCountryQuizView {
            success: self.success,
            started_at: self.started_at,
            finished_at: self.finished_at,
            solution: match self.solution {
                Some(code) => Some(code@),
                None => None,
            },
            answer: self.answer@,
            tries: self.tries,
            settings: self.settings,
        }
    }
}

impl Default for FlagNameCountryQuiz {
    fn default() -> (quiz: Self)
        ensures
            quiz@ == FlagNameCountryQuizView::fresh(FlagNameCountryQuizSettings { max_tries: 1 }),
    {
        FlagNameCountryQuiz::with_settings(FlagNameCountryQuizSettings { max_tries: 1 })
    }
}

impl PersistentObject for FlagNameCountryQuiz {
    type PersistentState = FlagNameCountryQuizState;

    open spec fn persisted_as(&self, state: FlagNameCountryQuizState) -> bool {
        state@ == self@
    }

    fn save_state(&self) -> (state: FlagNameCountryQuizState) {
        FlagNameCountryQuizState {
            success: self.success,
            started_at: self.started_at,
            finished_at: self.finished_at,
            solution: match &self.solution {
                Some(code) => Some(code.clone()),
                None => None,
            },
            answer: self.answer.clone(),
            tries: self.tries,
            settings: self.settings,
        }
    }

    fn load_state(state: FlagNameCountryQuizState) -> (quiz: Self) {
        FlagNameCountryQuiz {
            success: state.success,
            started_at: state.started_at,
            finished_at: state.finished_at,
            solution: state.solution,
            answer: state.answer,
            tries: state.tries,
            settings: state.settings,
        }
    }
}

/// `rand::seq::IndexedRandom::choose` on `codes` with the thread's random
/// generator: nothing where there is no code, else one of the codes.
#[verifier::external_body]
fn choose_code(codes: &Vec<String>) -> (picked: Option<String>)
    ensures
        codes@.len() == 0 ==> picked is None,
        codes@.len() > 0 ==> picked is Some && text_views(codes@).contains(picked.unwrap()@),
{
    rand::seq::IndexedRandom::choose(codes.as_slice(), &mut rand::rng()).cloned()
}

impl FlagNameCountryQuiz {
    /// A quiz with the given settings that has not begun.
    pub fn with_settings(settings: FlagNameCountryQuizSettings) -> (quiz: Self)
        ensures
            quiz@ == FlagNameCountryQuizView::fresh(settings),
    {
        FlagNameCountryQuiz {
            success: None,
            started_at: None,
            finished_at: None,
            solution: None,
            answer: String::new(),
            tries: 0,
            settings,
        }
    }

    /// How many answers may still be given.
    pub fn tries_left(&self) -> (left: u8)
        requires
            self@.tries <= self@.settings.max_tries,
        ensures
            left == self@.settings.max_tries - self@.tries,
    {
        self.settings.max_tries - self.tries
    }

    /// How many answers have been given.
    pub fn tries(&self) -> (tries: u8)
        ensures
            tries == self@.tries,
    {
        self.tries
    }

    /// How the quiz is set up.
    pub fn settings(&self) -> (settings: FlagNameCountryQuizSettings)
        ensures
            settings == self@.settings,
    {
        self.settings
    }

    /// Replaces what has been typed.
    pub fn set_answer(&mut self, answer: String)
        ensures
            final(self)@ == (FlagNameCountryQuizView { answer: answer@, ..old(self)@ }),
    {
        self.answer = answer;
    }

    /// The code of the country whose flag is shown.
    pub fn solution(&self) -> (solution: &Option<String>)
        ensures
            match *solution {
                Some(code) => self@.solution == Some(code@),
                None => self@.solution is None,
            },
    {
        &self.solution
    }

    /// What has been typed so far.
    pub fn answer(&self) -> (answer: &str)
        ensures
            answer@ == self@.answer,
    {
        self.answer.as_str()
    }

    /// Begins the quiz at `now_ms` with the flag of `solution`.
    pub fn start_with(&mut self, solution: String, now_ms: u128)
        ensures
            final(self)@ == old(self)@.started(solution@, now_ms),
    {
        self.reset();
        self.started_at = Some(now_ms);
        self.solution = Some(solution);
    }

    /// Judges what has been typed against the country's name, setting case
    /// aside, at `now_ms`.
    pub fn judge(&mut self, country_name: &str, now_ms: u128)
        requires
            old(self)@.tries < 255,
        ensures
            final(self)@ == old(self)@.judged(
                same_ignoring_case(old(self)@.answer, country_name@),
                now_ms,
            ),
    {
        let right = eq_ignoring_case(self.answer.as_str(), country_name);
        self.tries = self.tries + 1;
        if right {
            self.finish(true, now_ms);
        } else if self.tries >= self.settings.max_tries {
            self.finish(false, now_ms);
        } else {
            self.answer = String::new();
        }
    }

    /// Judges what has been typed against the name of the country that
    /// `data` holds under `country_code`.
    pub fn submit(&mut self, data: &WorldStudyData, country_code: &str, now_ms: u128)
        requires
            old(self)@.tries < 255,
            holds_id(data.countries(), uppercased(country_code@)),
        ensures
            exists|i: int|
                0 <= i < data.countries().len() && (#[trigger] data.countries()[i]).code@
                    == uppercased(country_code@) && final(self)@ == old(self)@.judged(
                    same_ignoring_case(old(self)@.answer, data.countries()[i].name@),
                    now_ms,
                ),
    {
        let country = data.get_country(country_code).unwrap();
        proof {
            let i = index_of(data.countries(), uppercased(country_code@));
            assert(0 <= i < data.countries().len() && data.countries()[i] == *country);
        }
        self.judge(country.name.as_str(), now_ms);
    }
}

impl FlagNameCountryQuiz {
    /// Judges what has been typed if `data` holds a country under
    /// `country_code`, and says whether it does. Where it does not, the quiz
    /// stays as it is.
    pub fn try_submit(
        &mut self,
        data: &WorldStudyData,
        country_code: &str,
        now_ms: u128,
    ) -> (judged: bool)
        requires
            old(self)@.tries < 255,
        ensures
            judged == holds_id(data.countries(), uppercased(country_code@)),
            !judged ==> final(self)@ == old(self)@,
            judged ==> exists|i: int|
                0 <= i < data.countries().len() && (#[trigger] data.countries()[i]).code@
                    == uppercased(country_code@) && final(self)@ == old(self)@.judged(
                    same_ignoring_case(old(self)@.answer, data.countries()[i].name@),
                    now_ms,
                ),
    {
        if data.get_country(country_code).is_some() {
            self.submit(data, country_code, now_ms);
            true
        } else {
            false
        }
    }
}

impl QuizTrait for FlagNameCountryQuiz {
    open spec fn began_at(&self) -> Option<u128> {
        self@.started_at
    }

    open spec fn ended_at(&self) -> Option<u128> {
        self@.finished_at
    }

    open spec fn outcome(&self) -> Option<bool> {
        self@.success
    }

    fn start(&mut self, country_codes: &Vec<String>, now_ms: u128)
        ensures
            exists|i: int|
                0 <= i < country_codes@.len() && final(self)@ == old(self)@.started(
                    #[trigger] country_codes@[i]@,
                    now_ms,
                ),
    {
        let picked = choose_code(country_codes).unwrap();
        proof {
            let i = choose|i: int|
                0 <= i < text_views(country_codes@).len() && text_views(country_codes@)[i]
                    == picked@;
            assert(country_codes@[i]@ == picked@);
        }
        self.start_with(picked, now_ms);
    }

    fn finish(&mut self, success: bool, now_ms: u128)
        ensures
            final(self)@ == old(self)@.finished(success, now_ms),
    {
        self.success = Some(success);
        self.finished_at = Some(now_ms);
    }

    fn has_started(&self) -> (started: bool) {
        self.started_at.is_some()
    }

    fn is_successful(&self) -> (success: Option<bool>) {
        self.success
    }

    fn reset(&mut self)
        ensures
            final(self)@ == old(self)@.reset(),
    {
        self.success = None;
        self.started_at = None;
        self.solution = None;
        self.answer = String::new();
        self.tries = 0;
    }

    fn collect_stats(&self) -> (stats: Option<QuizStats>) {
        match (self.started_at, self.finished_at) {
            (Some(started), Some(finished)) => Some(
                QuizStats::FlagNameCountry(
                    FlagNameCountryQuizStats {
                        common: QuizStatsCommon {
                            started_at_ms: started,
                            finished_at_ms: finished,
                        },
                    },
                ),
            ),
            _ => None,
        }
    }
}

/// The kinds of quiz.
#[derive(Debug, Clone, Copy, PartialEq, Eq, Structural)]
pub enum QuizType {
    FlagNameCountry,
}

impl Default for QuizType {
    fn default() -> (kind: Self)
        ensures
            kind == QuizType::FlagNameCountry,
    {
        QuizType::FlagNameCountry
    }
}

/// A quiz of any kind.
#[derive(Debug)]
pub enum Quiz {
    FlagNameCountry(FlagNameCountryQuiz),
}

/// What is kept of a quiz of any kind.
#[derive(Debug)]
pub enum QuizState {
    FlagNameCountry(FlagNameCountryQuizState),
}

impl Default for Quiz {
    fn default() -> (quiz: Self)
        ensures
            quiz.flag_quiz()@ == FlagNameCountryQuizView::fresh(
                FlagNameCountryQuizSettings { max_tries: 1 },
            ),
    {
        Quiz::FlagNameCountry(FlagNameCountryQuiz::default())
    }
}

impl Default for QuizState {
    fn default() -> (state: Self)
        ensures
            state == QuizState::FlagNameCountry(state->0),
            state->0@ == FlagNameCountryQuizView::fresh(
                FlagNameCountryQuizSettings { max_tries: 1 },
            ),
    {
        QuizState::FlagNameCountry(FlagNameCountryQuizState::default())
    }
}

impl PersistentObject for Quiz {
    type PersistentState = QuizState;

    open spec fn persisted_as(&self, state: QuizState) -> bool {
        match (self, state) {
            (Quiz::FlagNameCountry(quiz), QuizState::FlagNameCountry(kept)) => quiz.persisted_as(
                kept,
            ),
        }
    }

    fn save_state(&self) -> (state: QuizState) {
        match self {
            Quiz::FlagNameCountry(quiz) => QuizState::FlagNameCountry(quiz.save_state()),
        }
    }

    fn load_state(state: QuizState) -> (quiz: Self) {
        match state {
            QuizState::FlagNameCountry(kept) => Quiz::FlagNameCountry(
                FlagNameCountryQuiz::load_state(kept),
            ),
        }
    }
}

impl Quiz {
    /// The flag quiz that this quiz is.
    pub open spec fn flag_quiz(&self) -> FlagNameCountryQuiz {
        match self {
            Quiz::FlagNameCountry(quiz) => *quiz,
        }
    }
}

impl QuizTrait for Quiz {
    open spec fn began_at(&self) -> Option<u128> {
        self.flag_quiz()@.started_at
    }

    open spec fn ended_at(&self) -> Option<u128> {
        self.flag_quiz()@.finished_at
    }

    open spec fn outcome(&self) -> Option<bool> {
        self.flag_quiz()@.success
    }

    fn start(&mut self, country_codes: &Vec<String>, now_ms: u128)
        ensures
            exists|i: int|
                0 <= i < country_codes@.len() && final(self).flag_quiz()@
                    == old(self).flag_quiz()@.started(#[trigger] country_codes@[i]@, now_ms),
    {
        match self {
            Quiz::FlagNameCountry(quiz) => quiz.start(country_codes, now_ms),
        }
    }

    fn finish(&mut self, success: bool, now_ms: u128)
        ensures
            final(self).flag_quiz()@ == old(self).flag_quiz()@.finished(success, now_ms),
    {
        match self {
            Quiz::FlagNameCountry(quiz) => quiz.finish(success, now_ms),
        }
    }

    fn has_started(&self) -> (started: bool) {
        match self {
            Quiz::FlagNameCountry(quiz) => quiz.has_started(),
        }
    }

    fn is_successful(&self) -> (success: Option<bool>) {
        match self {
            Quiz::FlagNameCountry(quiz) => quiz.is_successful(),
        }
    }

    fn reset(&mut self)
        ensures
            final(self).flag_quiz()@ == old(self).flag_quiz()@.reset(),
    {
        match self {
            Quiz::FlagNameCountry(quiz) => quiz.reset(),
        }
    }

    fn collect_stats(&self) -> (stats: Option<QuizStats>) {
        match self {
            Quiz::FlagNameCountry(quiz) => quiz.collect_stats(),
        }
    }
}

impl QuizSettingsTrait for FlagNameCountryQuizSettings {
    fn create_quiz(&self) -> (quiz: Quiz)
        ensures
            quiz.flag_quiz()@ == FlagNameCountryQuizView::fresh(*self),
    {
        Quiz::FlagNameCountry(FlagNameCountryQuiz::with_settings(*self))
    }
}

/// A quiz that was put away and taken up again is as it was.
pub proof fn lemma_quiz_round_trip(
    quiz: FlagNameCountryQuiz,
    state: FlagNameCountryQuizState,
    again: FlagNameCountryQuiz,
)
    requires
        quiz.persisted_as(state),
        again.persisted_as(state),
    ensures
        again@ == quiz@,
{
}

} // verus!
