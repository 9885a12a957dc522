//! The decisions of the game logic at each tick: what to do for the current
//! status, what the eaten fruits do to the score and the snake size, and
//! what a bite of the snake into itself costs.
use vstd::prelude::*;
use crate::sprites::fruit::{Fruit, FruitView};
use crate::state::{GameOverMenu, GameState, GameStatus};
use crate::fruits_manager::{FruitsManager, eatable, without, fruits_view};
use crate::geometry::Position;

verus! {

/// What the game logic does at a tick.
#[derive(Debug, Clone, Copy, PartialEq, Eq, Structural)]
pub enum TickAction {
    /// Move the snake and apply what it meets
    Advance,
    /// Reset the game, the snake, its direction and the fruits
    Restart,
    /// Leave the game loop
    Stop,
    /// Do nothing until the next tick
    Wait,
}

/// The action of a tick for a game status: the snake moves while playing,
/// a restart resets everything, leaving for the menu or quitting stops the
/// loop, and a pause or a game over waits.
pub open spec fn spec_tick_action(status: GameStatus) -> TickAction {
    match status {
        GameStatus::Playing => TickAction::Advance,
        GameStatus::Restarting => TickAction::Restart,
        GameStatus::ByeBye | GameStatus::Menu => TickAction::Stop,
        GameStatus::Paused | GameStatus::GameOver(_) => TickAction::Wait,
    }
}

/// The action of a tick for a game status.
pub fn tick_action(status: GameStatus) -> (a: TickAction)
    ensures
        a == spec_tick_action(status),
        (a == TickAction::Advance) == (status == GameStatus::Playing),
        (a == TickAction::Restart) == (status == GameStatus::Restarting),
        (a == TickAction::Stop) == (status == GameStatus::ByeBye || status == GameStatus::Menu),
        (a == TickAction::Wait) == (status == GameStatus::Paused || status is GameOver),
{
    match status {
        GameStatus::Playing => TickAction::Advance,
        GameStatus::Restarting => TickAction::Restart,
        GameStatus::ByeBye | GameStatus::Menu => TickAction::Stop,
        GameStatus::Paused | GameStatus::GameOver(_) => TickAction::Wait,
    }
}

/// The sum of the scores of the fruits.
pub open spec fn score_sum(fruits: Seq<FruitView>) -> int
    decreases fruits.len(),
{
    if fruits.len() == 0 { 0 } else { score_sum(fruits.drop_last()) + fruits.last().score }
}

/// The sum of the effects of the fruits on the snake size.
pub open spec fn size_sum(fruits: Seq<FruitView>) -> int
    decreases fruits.len(),
{
    if fruits.len() == 0 { 0 } else { size_sum(fruits.drop_last()) + fruits.last().grow_snake }
}

/// The partial sums of the scores and of the size effects of the first
/// fruits all fit (in `i32` and in `i16`), as when they are added up one
/// by one.
pub open spec fn sums_fit(fruits: Seq<FruitView>) -> bool {
    forall|n: int| 0 <= n <= fruits.len() ==> {
        &&& i32::MIN <= #[trigger] score_sum(fruits.take(n)) <= i32::MAX
        &&& i16::MIN <= size_sum(fruits.take(n)) <= i16::MAX
    }
}

/// The score after a change of `impact` points, kept between 0 and
/// `u32::MAX`.
pub open spec fn score_after(score: u32, impact: int) -> u32 {
    if score + impact < 0 {
        0
    } else if score + impact > u32::MAX {
        u32::MAX
    } else {
        (score + impact) as u32
    }
}

/// What eating fruits does: the new score, and the change of the snake
/// size, if there is one to apply.
#[derive(Debug, Clone, Copy, PartialEq, Eq, Structural)]
pub struct FruitsEffect {
    pub score: u32,
    pub size_change: Option<i16>,
}

/// The views of fruits.
pub open spec fn views_of(v: Seq<Fruit>) -> Seq<FruitView> {
    v.map_values(|f: Fruit| f@)
}

/// The effect of eating `eaten` with the score at `score`: the scores of
/// the fruits, multiplied by the speed's score modifier, are added to the
/// score (which stays between 0 and `u32::MAX`); the sizes of the fruits
/// change the snake size, unless their sum shrinks it and fruits that
/// shrink the snake are disabled.
pub open spec fn spec_fruits_effect(score: u32, eaten: Seq<FruitView>, score_modifier: u16, negative_size_fruits: bool) -> FruitsEffect {
    let size = size_sum(eaten);
    FruitsEffect {
        score: score_after(score, score_sum(eaten) * score_modifier),
        size_change: if negative_size_fruits || size > 0 { Some(size as i16) } else { None },
    }
}

/// The effect of eating `eaten` with the score at `score`.
pub fn eaten_fruits_effect(score: u32, eaten: &[Fruit], score_modifier: u16, negative_size_fruits: bool) -> (e: FruitsEffect)
    requires
        sums_fit(views_of(eaten@)),
        i32::MIN <= score_sum(views_of(eaten@)) * score_modifier <= i32::MAX,
    ensures
        e == spec_fruits_effect(score, views_of(eaten@), score_modifier, negative_size_fruits),
        negative_size_fruits || size_sum(views_of(eaten@)) > 0 ==> e.size_change == Some(size_sum(views_of(eaten@)) as i16),
        !negative_size_fruits && size_sum(views_of(eaten@)) <= 0 ==> e.size_change is None,
        0 <= score + score_sum(views_of(eaten@)) * score_modifier <= u32::MAX
            ==> e.score == score + score_sum(views_of(eaten@)) * score_modifier,
        score + score_sum(views_of(eaten@)) * score_modifier < 0 ==> e.score == 0,
        score + score_sum(views_of(eaten@)) * score_modifier > u32::MAX ==> e.score == u32::MAX,
{
    let ghost fruits = views_of(eaten@);
    let mut score_fruits: i32 = 0;
    let mut size_effect: i16 = 0;
    let mut i: usize = 0;
    proof {
        assert(fruits.take(0) =~= Seq::<FruitView>::empty());
    }
    while i < eaten.len()
        invariant
            i <= eaten.len(),
            fruits == views_of(eaten@),
            sums_fit(fruits),
            score_fruits as int == score_sum(fruits.take(i as int)),
            size_effect as int == size_sum(fruits.take(i as int)),
        decreases eaten.len() - i,
    {
        proof {
            assert(fruits.take(i + 1).drop_last() =~= fruits.take(i as int));
            assert(fruits.take(i + 1).last() == eaten@[i as int]@);
            assert(i32::MIN <= score_sum(fruits.take(i + 1)) <= i32::MAX);
        }
        score_fruits = score_fruits + eaten[i].get_score();
        size_effect = size_effect + eaten[i].get_grow_snake();
        i = i + 1;
    }
    proof {
        assert(fruits.take(eaten.len() as int) =~= fruits);
    }
    let size_change = if negative_size_fruits || size_effect > 0 { Some(size_effect) } else { None };
    let fruit_impact: i32 = score_fruits * (score_modifier as i32);
    let new_score = if fruit_impact < 0 {
        score.saturating_sub((-(fruit_impact as i64)) as u32)
    } else {
        score.saturating_add(fruit_impact as u32)
    };
    FruitsEffect { score: new_score, size_change }
}

/// A change of score never leaves the bounds, points gained never lower
/// the score, points lost never raise it, and no change keeps it.
pub proof fn lemma_score_after(score: u32, impact: int)
    ensures
        impact >= 0 ==> score_after(score, impact) >= score,
        impact <= 0 ==> score_after(score, impact) <= score,
        score_after(score, 0) == score,
        score + impact >= 0 && score + impact <= u32::MAX ==> score_after(score, impact) == score + impact,
{
}

/// The state after the snake bit itself: one life less (none below zero),
/// and the game is over with Restart selected once no life is left.
pub open spec fn bitten(s: GameState) -> GameState {
    let life = if s.life >= 1 { (s.life - 1) as u16 } else { 0u16 };
    GameState {
        life,
        status: if life == 0 { GameStatus::GameOver(GameOverMenu::Restart) } else { s.status },
        ..s
    }
}

/// The snake bit itself: it loses a life, and the game is over when no life
/// is left. Tells whether the game is over, in which case the score is to
/// be saved among the best ones.
pub fn bite(state: &mut GameState) -> (game_over: bool)
    ensures
        *final(state) == bitten(*old(state)),
        game_over == (final(state).life == 0),
{
    if state.life >= 1 {
        state.life = state.life - 1;
    }
    if state.life == 0 {
        state.status = GameStatus::GameOver(GameOverMenu::default_selection());
        true
    } else {
        false
    }
}

/// The fruits `eaten` can be added up as the game does: their partial
/// sums fit, and so does their score times the score modifier.
pub open spec fn eat_fits(eaten: Seq<FruitView>, score_modifier: u16) -> bool {
    &&& sums_fit(eaten)
    &&& i32::MIN <= score_sum(eaten) * score_modifier <= i32::MAX
}

/// The state after a tick of play in which the snake's head reached the
/// fruits `eaten` (none, or those at its new place), then bit itself or
/// not: the eaten fruits change the score, and a bite costs a life.
pub open spec fn played(state: GameState, eaten: Seq<FruitView>, score_modifier: u16, negative_size_fruits: bool, bit_itself: bool) -> GameState {
    let fed = if eaten.len() > 0 {
        GameState { score: spec_fruits_effect(state.score, eaten, score_modifier, negative_size_fruits).score, ..state }
    } else {
        state
    };
    if bit_itself { bitten(fed) } else { fed }
}

/// What a tick of play leaves to its caller: the change of the snake size
/// to apply, if any, and whether the game just ended (its score is then to
/// be saved among the best ones).
#[derive(Debug, Clone, Copy, PartialEq, Eq, Structural)]
pub struct TickOutcome {
    pub size_change: Option<i16>,
    pub game_over: bool,
}

/// The outcome of a tick of play: the size change of the eaten fruits when
/// some were eaten, and the end of the game when a bite took the last life.
pub open spec fn tick_outcome(state: GameState, eaten: Seq<FruitView>, score_modifier: u16, negative_size_fruits: bool, bit_itself: bool) -> TickOutcome {
    TickOutcome {
        size_change: if eaten.len() > 0 {
            spec_fruits_effect(state.score, eaten, score_modifier, negative_size_fruits).size_change
        } else {
            None
        },
        game_over: bit_itself && played(state, eaten, score_modifier, negative_size_fruits, bit_itself).life == 0,
    }
}

/// A tick of play once the snake has moved its head to `head`: the fruits
/// there that have not expired at `now` are eaten, change the score and are
/// replaced by new ones (their number stays the same); then, if the snake
/// `bit_itself`, it loses a life, and the game is over once none is left.
pub fn play_tick_at(
    state: &mut GameState,
    fruits: &mut FruitsManager,
    head: &Position,
    bit_itself: bool,
    score_modifier: u16,
    negative_size_fruits: bool,
    now: u64,
) -> (o: TickOutcome)
    requires
        old(fruits).wf(),
        eat_fits(eatable(old(fruits).fruit_views(), *head, now), score_modifier),
    ensures
        *final(state) == played(*old(state), eatable(old(fruits).fruit_views(), *head, now), score_modifier,
            negative_size_fruits, bit_itself),
        o == tick_outcome(*old(state), eatable(old(fruits).fruit_views(), *head, now), score_modifier,
            negative_size_fruits, bit_itself),
        eatable(old(fruits).fruit_views(), *head, now).len() == 0 ==> o.size_change is None,
        eatable(old(fruits).fruit_views(), *head, now).len() > 0 && (negative_size_fruits
            || size_sum(eatable(old(fruits).fruit_views(), *head, now)) > 0)
            ==> o.size_change == Some(size_sum(eatable(old(fruits).fruit_views(), *head, now)) as i16),
        !negative_size_fruits && size_sum(eatable(old(fruits).fruit_views(), *head, now)) <= 0 ==> o.size_change is None,
        o.game_over == (bit_itself && final(state).life == 0),
        !bit_itself ==> final(state).life == old(state).life && final(state).status == old(state).status,
        final(fruits).wf(),
        final(fruits).fruit_views().len() == old(fruits).fruit_views().len(),
        final(fruits).refilled_from(old(fruits), final(fruits).fruit_views().len() as int),
        eatable(old(fruits).fruit_views(), *head, now).len() == 0 ==> final(fruits).fruit_views() == old(fruits).fruit_views(),
        eatable(old(fruits).fruit_views(), *head, now).len() > 0 ==> {
            let rest = without(old(fruits).fruit_views(), eatable(old(fruits).fruit_views(), *head, now));
            &&& final(fruits).fruit_views().take(rest.len() as int) == rest
            &&& final(fruits).refilled_from(old(fruits), rest.len() as int)
        },
{
    let ghost eaten_view = eatable(fruits.fruit_views(), *head, now);
    let mut size_change: Option<i16> = None;
    match fruits.eat_some_fruits_at(head, now) {
        Some(eaten) => {
            proof {
                assert(views_of(eaten@) =~= fruits_view(eaten@));
            }
            let effect = eaten_fruits_effect(state.score, eaten.as_slice(), score_modifier, negative_size_fruits);
            state.score = effect.score;
            size_change = effect.size_change;
            fruits.replace_fruits(eaten.as_slice());
        },
        None => {},
    }
    let game_over = if bit_itself { bite(state) } else { false };
    TickOutcome { size_change, game_over }
}

/// What a tick does to the snake size: nothing when no fruit is eaten;
/// otherwise the sum of the size effects of the eaten fruits, unless
/// shrinking fruits are disabled and that sum does not make the snake grow,
/// in which case nothing. The score changes by the scores of the eaten
/// fruits times the score modifier, kept within a `u32`, and without a bite
/// the lives and the status stay as they were.
pub proof fn lemma_tick_size_and_score(
    state: GameState,
    eaten: Seq<FruitView>,
    score_modifier: u16,
    negative_size_fruits: bool,
    bit_itself: bool,
)
    requires
        eat_fits(eaten, score_modifier),
    ensures
        eaten.len() == 0 ==> tick_outcome(state, eaten, score_modifier, negative_size_fruits, bit_itself).size_change is None,
        eaten.len() > 0 && (negative_size_fruits || size_sum(eaten) > 0)
            ==> tick_outcome(state, eaten, score_modifier, negative_size_fruits, bit_itself).size_change
                == Some(size_sum(eaten) as i16),
        !negative_size_fruits && size_sum(eaten) <= 0
            ==> tick_outcome(state, eaten, score_modifier, negative_size_fruits, bit_itself).size_change is None,
        eaten.len() > 0 && 0 <= state.score + score_sum(eaten) * score_modifier <= u32::MAX && !bit_itself
            ==> played(state, eaten, score_modifier, negative_size_fruits, bit_itself).score
                == state.score + score_sum(eaten) * score_modifier,
        !bit_itself ==> played(state, eaten, score_modifier, negative_size_fruits, bit_itself).life == state.life
            && played(state, eaten, score_modifier, negative_size_fruits, bit_itself).status == state.status,
        bit_itself && state.life >= 1 ==> played(state, eaten, score_modifier, negative_size_fruits, bit_itself).life
            == state.life - 1,
        tick_outcome(state, eaten, score_modifier, negative_size_fruits, bit_itself).game_over
            == (bit_itself && state.life <= 1),
{
}

/// Each bite costs exactly one life while some are left; the game goes on
/// while a life is left and is over once none is, whatever its status was.
pub proof fn lemma_bite_costs_a_life(s: GameState)
    ensures
        s.life >= 1 ==> bitten(s).life == s.life - 1,
        s.life >= 2 ==> bitten(s).status == s.status,
        s.life <= 1 ==> bitten(s).status == GameStatus::GameOver(GameOverMenu::Restart),
        bitten(s).score == s.score,
{
}

} // verus!
