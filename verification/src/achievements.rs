//! The achievements catalog, the unlock rules, and the persisted
//! streak aggregate with its update rules.

use vstd::prelude::*;

use crate::clock::now_utc_rfc3339;
use crate::session::SessionStatus;
use crate::streak::{calculate_streak, spec_current_streak};
use crate::text::str_eq;

verus! {

/// Achievement tier levels.
#[derive(Debug, Clone, Copy, PartialEq, Eq, Structural)]
pub enum AchievementTier {
    Bronze,
    Silver,
    Gold,
    Platinum,
}

/// What unlocks an achievement: a streak length or a session total.
#[derive(Debug, Clone, Copy, PartialEq, Eq, Structural)]
pub enum AchievementRequirement {
    Streak(u32),
    Sessions(u32),
}

/// One catalog entry.
#[derive(Debug, Clone)]
pub struct Achievement {
    pub id: String,
    pub title: String,
    pub description: String,
    pub icon: String,
    pub tier: AchievementTier,
    pub requirement: AchievementRequirement,
}

/// An unlocked achievement with the moment it was unlocked.
#[derive(Debug, Clone, PartialEq, Eq)]
pub struct UnlockedAchievement {
    pub id: String,
    pub unlocked_at: String,
}

/// A catalog entry together with its unlock state.
#[derive(Debug, Clone)]
pub struct AchievementWithStatus {
    pub id: String,
    pub title: String,
    pub description: String,
    pub icon: String,
    pub tier: AchievementTier,
    pub requirement: AchievementRequirement,
    pub unlocked: bool,
    pub unlocked_at: Option<String>,
}

/// The persisted aggregate: unlocked achievements, streaks and the
/// lifetime session count.
#[derive(Debug, Clone, PartialEq, Eq)]
pub struct AchievementsData {
    pub unlocked: Vec<String>,
    pub unlocked_achievements: Vec<UnlockedAchievement>,
    pub current_streak: u32,
    pub longest_streak: u32,
    pub total_sessions: u32,
    pub last_streak_date: Option<String>,
}

impl Default for AchievementsData {
    /// The aggregate of a fresh install: nothing unlocked, no streak.
    fn default() -> (r: Self)
        ensures
            r.unlocked@ == Seq::<String>::empty(),
            r.unlocked_achievements@ == Seq::<UnlockedAchievement>::empty(),
            r.current_streak == 0,
            r.longest_streak == 0,
            r.total_sessions == 0,
            r.last_streak_date is None,
    {
        AchievementsData {
            unlocked: Vec::new(),
            unlocked_achievements: Vec::new(),
            current_streak: 0,
            longest_streak: 0,
            total_sessions: 0,
            last_streak_date: None,
        }
    }
}

/// The streak fields alone, as handed to callers that only display
/// them.
#[derive(Debug, Clone, PartialEq, Eq)]
pub struct StreakDataResponse {
    pub current_streak: u32,
    pub longest_streak: u32,
    pub last_streak_date: Option<String>,
}

impl StreakDataResponse {
    /// The streak fields of an aggregate.
    pub fn from(data: &AchievementsData) -> (r: Self)
        ensures
            r.current_streak == data.current_streak,
            r.longest_streak == data.longest_streak,
            r.last_streak_date == data.last_streak_date,
    {
        StreakDataResponse {
            current_streak: data.current_streak,
            longest_streak: data.longest_streak,
            last_streak_date: clone_opt_string(&data.last_streak_date),
        }
    }
}

/// The streak fields of an aggregate, for display.
pub fn get_streak_data(data: &AchievementsData) -> (r: StreakDataResponse)
    ensures
        r.current_streak == data.current_streak,
        r.longest_streak == data.longest_streak,
        r.last_streak_date == data.last_streak_date,
{
    StreakDataResponse::from(data)
}

/// The lifetime session count of an aggregate.
pub fn get_total_session_count(data: &AchievementsData) -> (r: u32)
    ensures
        r == data.total_sessions,
{
    data.total_sessions
}

fn clone_opt_string(o: &Option<String>) -> (r: Option<String>)
    ensures
        r == *o,
{
    match o {
        Some(s) => Some(s.clone()),
        None => None,
    }
}

/// The ids of the catalog, in order.
pub open spec fn spec_catalog_ids() -> Seq<Seq<char>> {
    seq![
        "first_session"@,
        "streak_7"@,
        "streak_14"@,
        "streak_30"@,
        "sessions_10"@,
        "sessions_50"@,
        "sessions_100"@,
        "sessions_500"@,
    ]
}

/// The unlock requirements of the catalog, in order.
pub open spec fn spec_catalog_reqs() -> Seq<AchievementRequirement> {
    seq![
        AchievementRequirement::Sessions(1u32),
        AchievementRequirement::Streak(7u32),
        AchievementRequirement::Streak(14u32),
        AchievementRequirement::Streak(30u32),
        AchievementRequirement::Sessions(10u32),
        AchievementRequirement::Sessions(50u32),
        AchievementRequirement::Sessions(100u32),
        AchievementRequirement::Sessions(500u32),
    ]
}

/// The tiers of the catalog, in order.
pub open spec fn spec_catalog_tiers() -> Seq<AchievementTier> {
    seq![
        AchievementTier::Bronze,
        AchievementTier::Silver,
        AchievementTier::Gold,
        AchievementTier::Platinum,
        AchievementTier::Bronze,
        AchievementTier::Silver,
        AchievementTier::Gold,
        AchievementTier::Platinum,
    ]
}

/// The titles of the catalog, in order.
pub open spec fn spec_catalog_titles() -> Seq<Seq<char>> {
    seq![
        "First Focus"@,
        "Week Warrior"@,
        "Fortnight Focus"@,
        "Monthly Master"@,
        "Getting Started"@,
        "Half Century"@,
        "Centurion"@,
        "Focus Legend"@,
    ]
}

/// The descriptions of the catalog, in order.
pub open spec fn spec_catalog_descriptions() -> Seq<Seq<char>> {
    seq![
        "Complete your first session"@,
        "7-day streak"@,
        "14-day streak"@,
        "30-day streak"@,
        "10 total sessions"@,
        "50 total sessions"@,
        "100 total sessions"@,
        "500 total sessions"@,
    ]
}

/// The icons of the catalog, in order.
pub open spec fn spec_catalog_icons() -> Seq<Seq<char>> {
    seq!["Flame"@, "Zap"@, "Award"@, "Crown"@, "Target"@, "Trophy"@, "Medal"@, "Crown"@]
}

/// Whether a list is the full catalog: every field of every entry.
pub open spec fn spec_is_catalog(s: Seq<Achievement>) -> bool {
    &&& s.len() == 8
    &&& forall|i: int|
        0 <= i < 8 ==> (#[trigger] s[i]).id@ == spec_catalog_ids()[i] && s[i].requirement
            == spec_catalog_reqs()[i] && s[i].tier == spec_catalog_tiers()[i] && s[i].title@
            == spec_catalog_titles()[i] && s[i].description@ == spec_catalog_descriptions()[i]
            && s[i].icon@ == spec_catalog_icons()[i]
}

/// A copy of a catalog entry, field by field.
fn clone_achievement(a: &Achievement) -> (r: Achievement)
    ensures
        r == *a,
{
    Achievement {
        id: a.id.clone(),
        title: a.title.clone(),
        description: a.description.clone(),
        icon: a.icon.clone(),
        tier: a.tier,
        requirement: a.requirement,
    }
}

fn catalog_entry(
    id: &str,
    title: &str,
    description: &str,
    icon: &str,
    tier: AchievementTier,
    requirement: AchievementRequirement,
) -> (r: Achievement)
    ensures
        r.id@ == id@,
        r.title@ == title@,
        r.description@ == description@,
        r.icon@ == icon@,
        r.tier == tier,
        r.requirement == requirement,
{
    Achievement {
        id: String::from_str(id),
        title: String::from_str(title),
        description: String::from_str(description),
        icon: String::from_str(icon),
        tier,
        requirement,
    }
}

/// The full achievement catalog: the eight defined achievements, in
/// their fixed order.
pub fn get_all_achievements() -> (r: Vec<Achievement>)
    ensures
        spec_is_catalog(r@),
{
    let mut v: Vec<Achievement> = Vec::new();
    v.push(
        catalog_entry(
            "first_session",
            "First Focus",
            "Complete your first session",
            "Flame",
            AchievementTier::Bronze,
            AchievementRequirement::Sessions(1),
        ),
    );
    v.push(
        catalog_entry(
            "streak_7",
            "Week Warrior",
            "7-day streak",
            "Zap",
            AchievementTier::Silver,
            AchievementRequirement::Streak(7),
        ),
    );
    v.push(
        catalog_entry(
            "streak_14",
            "Fortnight Focus",
            "14-day streak",
            "Award",
            AchievementTier::Gold,
            AchievementRequirement::Streak(14),
        ),
    );
    v.push(
        catalog_entry(
            "streak_30",
            "Monthly Master",
            "30-day streak",
            "Crown",
            AchievementTier::Platinum,
            AchievementRequirement::Streak(30),
        ),
    );
    v.push(
        catalog_entry(
            "sessions_10",
            "Getting Started",
            "10 total sessions",
            "Target",
            AchievementTier::Bronze,
            AchievementRequirement::Sessions(10),
        ),
    );
    v.push(
        catalog_entry(
            "sessions_50",
            "Half Century",
            "50 total sessions",
            "Trophy",
            AchievementTier::Silver,
            AchievementRequirement::Sessions(50),
        ),
    );
    v.push(
        catalog_entry(
            "sessions_100",
            "Centurion",
            "100 total sessions",
            "Medal",
            AchievementTier::Gold,
            AchievementRequirement::Sessions(100),
        ),
    );
    v.push(
        catalog_entry(
            "sessions_500",
            "Focus Legend",
            "500 total sessions",
            "Crown",
            AchievementTier::Platinum,
            AchievementRequirement::Sessions(500),
        ),
    );
    v
}

/// Whether an id is already among the unlocked records.
pub open spec fn spec_is_unlocked(id: Seq<char>, unlocked: Seq<UnlockedAchievement>) -> bool {
    exists|i: int| 0 <= i < unlocked.len() && unlocked[i].id@ == id
}

/// Whether a requirement is met by the given streak and session total.
pub open spec fn spec_condition_met(
    req: AchievementRequirement,
    current_streak: u32,
    total_sessions: u32,
) -> bool {
    match req {
        AchievementRequirement::Streak(n) => current_streak >= n,
        AchievementRequirement::Sessions(n) => total_sessions >= n,
    }
}

/// The catalog positions, in order, of the achievements that newly
/// unlock: condition met and not yet unlocked, among the first `upto`
/// entries.
pub open spec fn spec_newly_unlocked(
    current_streak: u32,
    total_sessions: u32,
    unlocked: Seq<UnlockedAchievement>,
    upto: int,
) -> Seq<int>
    decreases upto,
{
    if upto <= 0 {
        Seq::empty()
    } else {
        let prev = spec_newly_unlocked(current_streak, total_sessions, unlocked, upto - 1);
        if !spec_is_unlocked(spec_catalog_ids()[upto - 1], unlocked) && spec_condition_met(
            spec_catalog_reqs()[upto - 1],
            current_streak,
            total_sessions,
        ) {
            prev.push(upto - 1)
        } else {
            prev
        }
    }
}

/// Whether an achievement id is already in the unlocked records.
pub fn is_already_unlocked(achievement_id: &str, unlocked: &[UnlockedAchievement]) -> (r: bool)
    ensures
        r == spec_is_unlocked(achievement_id@, unlocked@),
{
    let n = unlocked.len();
    let mut i: usize = 0;
    while i < n
        invariant
            i <= n == unlocked@.len(),
            forall|j: int| 0 <= j < i ==> unlocked@[j].id@ != achievement_id@,
        decreases n - i,
    {
        if str_eq(unlocked[i].id.as_str(), achievement_id) {
            return true;
        }
        i = i + 1;
    }
    false
}

/// Whether a requirement is met by the given streak and session total.
pub fn is_condition_met(
    requirement: &AchievementRequirement,
    current_streak: u32,
    total_sessions: u32,
) -> (r: bool)
    ensures
        r == spec_condition_met(*requirement, current_streak, total_sessions),
{
    match requirement {
        AchievementRequirement::Streak(n) => current_streak >= *n,
        AchievementRequirement::Sessions(n) => total_sessions >= *n,
    }
}

/// The achievements that newly unlock at the given streak and session
/// total: each catalog entry, in order, whose condition is met and
/// which is not among the unlocked records.
pub fn check_achievements(
    current_streak: u32,
    total_sessions: u32,
    unlocked: &[UnlockedAchievement],
) -> (r: Vec<Achievement>)
    ensures
        ({
            let sel = spec_newly_unlocked(current_streak, total_sessions, unlocked@, 8);
            &&& r@.len() == sel.len()
            &&& forall|j: int|
                0 <= j < r@.len() ==> (#[trigger] r@[j]).id@ == spec_catalog_ids()[sel[j]]
                    && r@[j].requirement == spec_catalog_reqs()[sel[j]] && r@[j].tier
                    == spec_catalog_tiers()[sel[j]] && r@[j].title@ == spec_catalog_titles()[sel[j]]
        }),
{
    let all_achievements = get_all_achievements();
    let mut newly_unlocked: Vec<Achievement> = Vec::new();
    let n = all_achievements.len();
    let mut i: usize = 0;
    while i < n
        invariant
            i <= n == 8,
            spec_is_catalog(all_achievements@),
            ({
                let sel = spec_newly_unlocked(current_streak, total_sessions, unlocked@, i as int);
                &&& newly_unlocked@.len() == sel.len()
                &&& forall|j: int|
                    0 <= j < newly_unlocked@.len() ==> (#[trigger] newly_unlocked@[j]).id@
                        == spec_catalog_ids()[sel[j]] && newly_unlocked@[j].requirement
                        == spec_catalog_reqs()[sel[j]] && newly_unlocked@[j].tier
                        == spec_catalog_tiers()[sel[j]] && newly_unlocked@[j].title@
                        == spec_catalog_titles()[sel[j]]
            }),
        decreases n - i,
    {
        let a = &all_achievements[i];
        if !is_already_unlocked(a.id.as_str(), unlocked) && is_condition_met(
            &a.requirement,
            current_streak,
            total_sessions,
        ) {
            newly_unlocked.push(clone_achievement(a));
            proof {
                assert(newly_unlocked@.last().id@ == spec_catalog_ids()[i as int]);
            }
        }
        i = i + 1;
    }
    newly_unlocked
}


/// Whether an id already stands in the plain unlocked-id list.
pub open spec fn spec_contains_id(cur: Seq<String>, id: Seq<char>) -> bool {
    exists|i: int| 0 <= i < cur.len() && cur[i]@ == id
}

/// The unlocked-id list after appending each record's id that is not
/// yet present, in order.
pub open spec fn spec_push_new_ids(cur: Seq<String>, recs: Seq<UnlockedAchievement>) -> Seq<
    String,
>
    decreases recs.len(),
{
    if recs.len() == 0 {
        cur
    } else {
        spec_push_new_ids(
            if spec_contains_id(cur, recs[0].id@) {
                cur
            } else {
                cur.push(recs[0].id)
            },
            recs.drop_first(),
        )
    }
}

/// Processing one more record processes it after all the others.
proof fn lemma_push_new_ids_snoc(cur: Seq<String>, recs: Seq<UnlockedAchievement>, x: UnlockedAchievement)
    ensures
        spec_push_new_ids(cur, recs.push(x)) == ({
            let mid = spec_push_new_ids(cur, recs);
            if spec_contains_id(mid, x.id@) {
                mid
            } else {
                mid.push(x.id)
            }
        }),
    decreases recs.len(),
{
    let step = if spec_contains_id(cur, recs.push(x)[0].id@) {
        cur
    } else {
        cur.push(recs.push(x)[0].id)
    };
    if recs.len() == 0 {
        assert(recs.push(x)[0] == x);
        assert(recs.push(x).drop_first() =~= Seq::<UnlockedAchievement>::empty());
        assert(spec_push_new_ids(cur, recs) == cur);
        assert(spec_push_new_ids(cur, recs.push(x)) == spec_push_new_ids(
            step,
            Seq::<UnlockedAchievement>::empty(),
        ));
        assert(spec_push_new_ids(step, Seq::<UnlockedAchievement>::empty()) == step);
    } else {
        assert(recs.push(x)[0] == recs[0]);
        assert(recs.push(x).drop_first() =~= recs.drop_first().push(x));
        lemma_push_new_ids_snoc(
            if spec_contains_id(cur, recs[0].id@) {
                cur
            } else {
                cur.push(recs[0].id)
            },
            recs.drop_first(),
            x,
        );
        assert(spec_push_new_ids(cur, recs.push(x)) == spec_push_new_ids(
            step,
            recs.drop_first().push(x),
        ));
        assert(spec_push_new_ids(cur, recs) == spec_push_new_ids(step, recs.drop_first()));
    }
}

/// Whether an id already stands in the plain unlocked-id list.
fn contains_id(cur: &Vec<String>, id: &str) -> (r: bool)
    ensures
        r == spec_contains_id(cur@, id@),
{
    let n = cur.len();
    let mut i: usize = 0;
    while i < n
        invariant
            i <= n == cur@.len(),
            forall|j: int| 0 <= j < i ==> cur@[j]@ != id@,
        decreases n - i,
    {
        if str_eq(cur[i].as_str(), id) {
            return true;
        }
        i = i + 1;
    }
    false
}

/// Record newly unlocked achievements in the aggregate: each gets an
/// unlock record stamped with the current time, and its id joins the
/// plain id list if not already there.  Relies on the clock only for
/// the timestamp text.
pub fn process_unlocked_achievements(
    achievements: &mut AchievementsData,
    newly_unlocked: &[Achievement],
) -> (r: Vec<UnlockedAchievement>)
    ensures
        r@.len() == newly_unlocked@.len(),
        forall|j: int|
            0 <= j < r@.len() ==> (#[trigger] r@[j]).id@ == newly_unlocked@[j].id@
                && r@[j].unlocked_at@.len() >= 19,
        forall|j: int, k: int|
            0 <= j < r@.len() && 0 <= k < r@.len() ==> (#[trigger] r@[j]).unlocked_at == (
            #[trigger] r@[k]).unlocked_at,
        final(achievements).unlocked_achievements@ == old(
            achievements,
        ).unlocked_achievements@ + r@,
        final(achievements).unlocked@ == spec_push_new_ids(old(achievements).unlocked@, r@),
        final(achievements).current_streak == old(achievements).current_streak,
        final(achievements).longest_streak == old(achievements).longest_streak,
        final(achievements).total_sessions == old(achievements).total_sessions,
        final(achievements).last_streak_date == old(achievements).last_streak_date,
{
    let timestamp = now_utc_rfc3339();
    let mut unlocked_records: Vec<UnlockedAchievement> = Vec::new();
    let n = newly_unlocked.len();
    let mut i: usize = 0;
    while i < n
        invariant
            i <= n == newly_unlocked@.len(),
            timestamp@.len() >= 19,
            unlocked_records@.len() == i,
            forall|j: int|
                0 <= j < i ==> (#[trigger] unlocked_records@[j]).id@ == newly_unlocked@[j].id@
                    && unlocked_records@[j].unlocked_at@.len() >= 19,
            forall|j: int| 0 <= j < i ==> (#[trigger] unlocked_records@[j]).unlocked_at
                == timestamp,
            achievements.unlocked_achievements@ == old(
                achievements,
            ).unlocked_achievements@ + unlocked_records@,
            achievements.unlocked@ == spec_push_new_ids(
                old(achievements).unlocked@,
                unlocked_records@,
            ),
            achievements.current_streak == old(achievements).current_streak,
            achievements.longest_streak == old(achievements).longest_streak,
            achievements.total_sessions == old(achievements).total_sessions,
            achievements.last_streak_date == old(achievements).last_streak_date,
        decreases n - i,
    {
        let a = &newly_unlocked[i];
        let record = UnlockedAchievement { id: a.id.clone(), unlocked_at: timestamp.clone() };
        let record2 = UnlockedAchievement {
            id: record.id.clone(),
            unlocked_at: record.unlocked_at.clone(),
        };
        proof {
            assert(record2 == record);
            lemma_push_new_ids_snoc(
                old(achievements).unlocked@,
                unlocked_records@,
                record,
            );
        }
        if !contains_id(&achievements.unlocked, a.id.as_str()) {
            achievements.unlocked.push(a.id.clone());
        }
        achievements.unlocked_achievements.push(record2);
        unlocked_records.push(record);
        proof {
            assert(achievements.unlocked_achievements@ =~= old(
                achievements,
            ).unlocked_achievements@ + unlocked_records@);
        }
        i = i + 1;
    }
    unlocked_records
}

/// The first unlock record carrying an id, if any.
pub open spec fn spec_find_record(recs: Seq<UnlockedAchievement>, id: Seq<char>) -> Option<
    UnlockedAchievement,
>
    decreases recs.len(),
{
    if recs.len() == 0 {
        None
    } else if recs[0].id@ == id {
        Some(recs[0])
    } else {
        spec_find_record(recs.drop_first(), id)
    }
}

/// A first match with nothing matching before it is what the search
/// finds.
proof fn lemma_find_record_position(recs: Seq<UnlockedAchievement>, id: Seq<char>, k: int)
    requires
        0 <= k < recs.len(),
        recs[k].id@ == id,
        forall|j: int| 0 <= j < k ==> recs[j].id@ != id,
    ensures
        spec_find_record(recs, id) == Some(recs[k]),
    decreases k,
{
    if k > 0 {
        lemma_find_record_position(recs.drop_first(), id, k - 1);
    }
}

/// Without a match there is nothing to find.
proof fn lemma_find_record_absent(recs: Seq<UnlockedAchievement>, id: Seq<char>)
    requires
        forall|j: int| 0 <= j < recs.len() ==> recs[j].id@ != id,
    ensures
        spec_find_record(recs, id) is None,
    decreases recs.len(),
{
    if recs.len() > 0 {
        lemma_find_record_absent(recs.drop_first(), id);
    }
}

/// The timestamp of the first unlock record carrying an id, if any.
fn find_unlocked_at(recs: &Vec<UnlockedAchievement>, id: &str) -> (r: Option<String>)
    ensures
        r == (match spec_find_record(recs@, id@) {
            Some(u) => Some(u.unlocked_at),
            None => None,
        }),
        r is Some <==> spec_is_unlocked(id@, recs@),
{
    let n = recs.len();
    let mut i: usize = 0;
    while i < n
        invariant
            i <= n == recs@.len(),
            forall|j: int| 0 <= j < i ==> recs@[j].id@ != id@,
        decreases n - i,
    {
        if str_eq(recs[i].id.as_str(), id) {
            proof {
                lemma_find_record_position(recs@, id@, i as int);
            }
            return Some(recs[i].unlocked_at.clone());
        }
        i = i + 1;
    }
    proof {
        lemma_find_record_absent(recs@, id@);
        if spec_is_unlocked(id@, recs@) {
            let j = choose|j: int| 0 <= j < recs@.len() && recs@[j].id@ == id@;
        }
    }
    None
}

/// Every catalog entry together with whether, and when, it was
/// unlocked in the given aggregate.
pub fn get_achievements_with_status(data: &AchievementsData) -> (r: Vec<AchievementWithStatus>)
    ensures
        r@.len() == 8,
        forall|i: int|
            0 <= i < 8 ==> (#[trigger] r@[i]).id@ == spec_catalog_ids()[i] && r@[i].requirement
                == spec_catalog_reqs()[i] && r@[i].tier == spec_catalog_tiers()[i] && r@[i].title@
                == spec_catalog_titles()[i],
        forall|i: int|
            0 <= i < 8 ==> (#[trigger] r@[i]).unlocked == spec_is_unlocked(
                spec_catalog_ids()[i],
                data.unlocked_achievements@,
            ),
        forall|i: int|
            0 <= i < 8 ==> (#[trigger] r@[i]).unlocked_at == (match spec_find_record(
                data.unlocked_achievements@,
                spec_catalog_ids()[i],
            ) {
                Some(u) => Some(u.unlocked_at),
                None => None,
            }),
{
    let all_achievements = get_all_achievements();
    let mut result: Vec<AchievementWithStatus> = Vec::new();
    let n = all_achievements.len();
    let mut i: usize = 0;
    while i < n
        invariant
            i <= n == 8,
            spec_is_catalog(all_achievements@),
            result@.len() == i,
            forall|k: int|
                0 <= k < i ==> (#[trigger] result@[k]).id@ == spec_catalog_ids()[k]
                    && result@[k].requirement == spec_catalog_reqs()[k] && result@[k].tier
                    == spec_catalog_tiers()[k] && result@[k].title@ == spec_catalog_titles()[k],
            forall|k: int|
                0 <= k < i ==> (#[trigger] result@[k]).unlocked == spec_is_unlocked(
                    spec_catalog_ids()[k],
                    data.unlocked_achievements@,
                ),
            forall|k: int|
                0 <= k < i ==> (#[trigger] result@[k]).unlocked_at == (match spec_find_record(
                    data.unlocked_achievements@,
                    spec_catalog_ids()[k],
                ) {
                    Some(u) => Some(u.unlocked_at),
                    None => None,
                }),
        decreases n - i,
    {
        let a = &all_achievements[i];
        let unlocked_at = find_unlocked_at(&data.unlocked_achievements, a.id.as_str());
        let unlocked = match &unlocked_at {
            Some(_) => true,
            None => false,
        };
        result.push(
            AchievementWithStatus {
                id: a.id.clone(),
                title: a.title.clone(),
                description: a.description.clone(),
                icon: a.icon.clone(),
                tier: a.tier,
                requirement: a.requirement,
                unlocked,
                unlocked_at,
            },
        );
        i = i + 1;
    }
    result
}

/// Check the aggregate against the catalog and record what newly
/// unlocks; each returned pair holds the achievement and the timestamp
/// it was unlocked at.  The aggregate is untouched when nothing new
/// unlocks.
pub fn check_and_unlock_achievements(a: &mut AchievementsData) -> (r: Vec<(Achievement, String)>)
    ensures
        ({
            let sel = spec_newly_unlocked(
                old(a).current_streak,
                old(a).total_sessions,
                old(a).unlocked_achievements@,
                8,
            );
            &&& r@.len() == sel.len()
            &&& forall|j: int|
                0 <= j < r@.len() ==> (#[trigger] r@[j]).0.id@ == spec_catalog_ids()[sel[j]]
                    && r@[j].0.requirement == spec_catalog_reqs()[sel[j]] && r@[j].1@.len() >= 19
            &&& sel.len() == 0 ==> *final(a) == *old(a)
            &&& final(a).current_streak == old(a).current_streak
            &&& final(a).longest_streak == old(a).longest_streak
            &&& final(a).total_sessions == old(a).total_sessions
            &&& final(a).last_streak_date == old(a).last_streak_date
            &&& final(a).unlocked_achievements@.len() == old(a).unlocked_achievements@.len()
                + sel.len()
        }),
{
    let newly_unlocked = check_achievements(
        a.current_streak,
        a.total_sessions,
        a.unlocked_achievements.as_slice(),
    );
    if newly_unlocked.len() == 0 {
        return Vec::new();
    }
    let records = process_unlocked_achievements(a, newly_unlocked.as_slice());
    let mut result: Vec<(Achievement, String)> = Vec::new();
    let n = newly_unlocked.len();
    let mut i: usize = 0;
    while i < n
        invariant
            i <= n == newly_unlocked@.len(),
            records@.len() == n,
            result@.len() == i,
            forall|j: int|
                0 <= j < n ==> (#[trigger] records@[j]).unlocked_at@.len() >= 19,
            forall|j: int|
                0 <= j < i ==> (#[trigger] result@[j]).0.id@ == newly_unlocked@[j].id@
                    && result@[j].0.requirement == newly_unlocked@[j].requirement && result@[j].0.tier
                    == newly_unlocked@[j].tier && result@[j].0.title@ == newly_unlocked@[j].title@
                    && result@[j].1@.len() >= 19,
        decreases n - i,
    {
        result.push((clone_achievement(&newly_unlocked[i]), records[i].unlocked_at.clone()));
        i = i + 1;
    }
    result
}

/// The path of the aggregate file under a data directory.
pub fn get_achievements_file_path(data_dir: &str) -> (r: String)
    ensures
        r@ == data_dir@ + "/achievements.json"@,
{
    let mut s = String::from_str(data_dir);
    s.append("/achievements.json");
    s
}

/// Whether the stored last-streak date is this very day.
pub open spec fn spec_same_day(last: Option<String>, today: Seq<char>) -> bool {
    last matches Some(d) && d@ == today
}

/// The streak fields an update leaves behind: untouched for anything
/// but a complete session; only the session total moves when the
/// streak was already updated today; otherwise the recalculated streak
/// with the longest raised to it.
pub open spec fn spec_streak_fields_after(
    current: u32,
    longest: u32,
    total: u32,
    status: SessionStatus,
    same_day: bool,
    scan: Seq<bool>,
) -> (int, int, int) {
    if status != SessionStatus::Complete {
        (current as int, longest as int, total as int)
    } else if same_day {
        (current as int, longest as int, total as int + 1)
    } else {
        let c = spec_current_streak(scan);
        (c, if longest >= c { longest as int } else { c }, total as int + 1)
    }
}

/// An interrupted session never moves the current streak, the longest
/// streak or the session total.
pub proof fn lemma_interrupted_never_mutates(
    current: u32,
    longest: u32,
    total: u32,
    same_day: bool,
    scan: Seq<bool>,
)
    ensures
        spec_streak_fields_after(current, longest, total, SessionStatus::Interrupted, same_day, scan)
            == (current as int, longest as int, total as int),
{
}

/// Whether an update for this status and day would have to rescan the
/// record store; callers use it to build the scan only when needed.
pub fn needs_streak_rescan(a: &AchievementsData, session_status: SessionStatus, today: &String) -> (r:
    bool)
    ensures
        r == (session_status == SessionStatus::Complete && !spec_same_day(
            a.last_streak_date,
            today@,
        )),
{
    if !matches!(session_status, SessionStatus::Complete) {
        return false;
    }
    match &a.last_streak_date {
        Some(d) => !str_eq(d.as_str(), today.as_str()),
        None => true,
    }
}

/// Update the aggregate after a session was saved.  Only a complete
/// session counts; within one day only the session total moves; the
/// first completion of a day recalculates the streak from the scan.
/// Returns whether the aggregate changed and must be persisted.
pub fn update_streak_on_completion(
    a: &mut AchievementsData,
    session_status: SessionStatus,
    today: &String,
    scan: &Vec<bool>,
) -> (persist: bool)
    requires
        session_status == SessionStatus::Complete ==> old(a).total_sessions < u32::MAX,
        (session_status == SessionStatus::Complete && !spec_same_day(
            old(a).last_streak_date,
            today@,
        )) ==> 1 <= scan@.len() <= u32::MAX,
    ensures
        ({
            let same_day = spec_same_day(old(a).last_streak_date, today@);
            let after = spec_streak_fields_after(
                old(a).current_streak,
                old(a).longest_streak,
                old(a).total_sessions,
                session_status,
                same_day,
                scan@,
            );
            &&& final(a).current_streak == after.0
            &&& final(a).longest_streak == after.1
            &&& final(a).total_sessions == after.2
            &&& persist == (session_status == SessionStatus::Complete)
            &&& session_status != SessionStatus::Complete ==> *final(a) == *old(a)
            &&& (session_status == SessionStatus::Complete && same_day)
                ==> final(a).last_streak_date == old(a).last_streak_date
            &&& (session_status == SessionStatus::Complete && !same_day) ==> spec_same_day(
                final(a).last_streak_date,
                today@,
            )
            &&& final(a).unlocked@ == old(a).unlocked@
            &&& final(a).unlocked_achievements@ == old(a).unlocked_achievements@
            &&& (old(a).longest_streak >= old(a).current_streak ==> final(a).longest_streak
                >= final(a).current_streak)
        }),
{
    if !matches!(session_status, SessionStatus::Complete) {
        return false;
    }
    let same_day = match &a.last_streak_date {
        Some(d) => str_eq(d.as_str(), today.as_str()),
        None => false,
    };
    if same_day {
        a.total_sessions = a.total_sessions + 1;
        return true;
    }
    let (current_streak, longest_streak) = calculate_streak(scan, a.longest_streak);
    a.current_streak = current_streak;
    a.longest_streak = longest_streak;
    a.last_streak_date = Some(today.clone());
    a.total_sessions = a.total_sessions + 1;
    true
}

/// Recalculate the streak from a fresh scan, as done once at startup
/// to account for days missed while not running.  Returns whether
/// either streak value moved, so callers persist only then.
pub fn recalculate_streak_on_startup(a: &mut AchievementsData, scan: &Vec<bool>) -> (changed:
    bool)
    requires
        1 <= scan@.len() <= u32::MAX,
    ensures
        final(a).current_streak == spec_current_streak(scan@),
        final(a).longest_streak == if old(a).longest_streak >= final(a).current_streak {
            old(a).longest_streak as int
        } else {
            final(a).current_streak as int
        },
        changed == (old(a).current_streak != final(a).current_streak || old(a).longest_streak
            != final(a).longest_streak),
        final(a).total_sessions == old(a).total_sessions,
        final(a).last_streak_date == old(a).last_streak_date,
        final(a).unlocked@ == old(a).unlocked@,
        final(a).unlocked_achievements@ == old(a).unlocked_achievements@,
        final(a).longest_streak >= final(a).current_streak,
{
    let (current_streak, longest_streak) = calculate_streak(scan, a.longest_streak);
    let changed = a.current_streak != current_streak || a.longest_streak != longest_streak;
    a.current_streak = current_streak;
    a.longest_streak = longest_streak;
    changed
}

} // verus!
