use vstd::prelude::*;

verus! {

/// The side a projectile was fired by.
#[derive(Copy, Clone, PartialEq, Eq, Structural, Debug)]
pub enum Team {
    Player,
    Villain,
    Neutral,
}

/// A projectile never hits its own side; neutral projectiles hit everyone.
pub open spec fn hits(shooter: Team, target: Team) -> bool {
    !(shooter == Team::Player && target == Team::Player) && !(shooter == Team::Villain && target
        == Team::Villain)
}

impl Team {
    /// Whether a projectile fired by `self` can hit a member of `team`.
    pub fn can_hit(&self, team: Team) -> (r: bool)
        ensures
            r == hits(*self, team),
    {
        match (team, self) {
            (Team::Player, Team::Player) => false,
            (Team::Villain, Team::Villain) => false,
            _ => true,
        }
    }
}

/// No friendly fire: a side never hits itself, except the neutral side.
pub proof fn lemma_no_friendly_fire(t: Team)
    ensures
        hits(t, t) <==> t == Team::Neutral,
        hits(Team::Neutral, t),
{
}

/// Different sides always hit each other: the player's projectiles hit
/// villains, the villains' hit the player, and neutral ones hit both.
pub proof fn lemma_sides_hit_each_other(a: Team, b: Team)
    ensures
        a != b ==> hits(a, b),
        hits(Team::Player, Team::Villain),
        hits(Team::Villain, Team::Player),
        !hits(Team::Player, Team::Player),
        !hits(Team::Villain, Team::Villain),
{
}

} // verus!
