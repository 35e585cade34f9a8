use mrr_fantasy::league::CreateLeagueRequest;
use mrr_fantasy::league::LeagueMember;
use mrr_fantasy::league::generate_invite_code;
use mrr_fantasy::league::league_name_valid;
use mrr_fantasy::league::league_standings;
use mrr_fantasy::listing::filter_players;
use mrr_fantasy::names::names_match;
use mrr_fantasy::player::Player;
use mrr_fantasy::player::PlayerPosition;
use mrr_fantasy::player::PlayerQuery;
use mrr_fantasy::player::find_player;
use mrr_fantasy::team::CreateTeamRequest;
use mrr_fantasy::team::FantasyTeam;
use mrr_fantasy::team::StarterAssignment;
use mrr_fantasy::team::team_name_valid;
use mrr_fantasy::team::StoredRoster;
use mrr_fantasy::user::Claims;
use mrr_fantasy::user::RegisterRequest;
use mrr_fantasy::user::RegistrationError;
use mrr_fantasy::user::TOKEN_LIFETIME_SECS;
use mrr_fantasy::user::User;
use mrr_fantasy::user::UserResponse;
use mrr_fantasy::user::strip_bearer;
use mrr_fantasy::user::token_claims;
use mrr_fantasy::user::validate_registration;

fn player(
    id: u64,
    name: &str,
    position: PlayerPosition,
    secondary: Option<PlayerPosition>,
    points: i32,
) -> Player {
    Player {
        id,
        name: name.to_string(),
        position,
        secondary_position: secondary,
        is_top_player: false,
        team_name: "MRR Fantasy".to_string(),
        photo_url: None,
        price: 7,
        total_points: points,
        created_at: 0,
    }
}

fn catalog() -> Vec<Player> {
    vec![
        player(1, "Nitesh Das", PlayerPosition::Gk, Some(PlayerPosition::Def), 40),
        player(2, "Kishor Dhakal", PlayerPosition::Def, None, 60),
        player(3, "Bishal Das", PlayerPosition::Mid, Some(PlayerPosition::Def), 0),
        player(4, "Khagendra Kandel", PlayerPosition::Fwd, None, 25),
    ]
}

fn roster_for(user_id: u64, team: &str, starter_ids: &[u64]) -> StoredRoster {
    StoredRoster {
        team: FantasyTeam {
            id: user_id * 10,
            user_id,
            name: team.to_string(),
            captain_id: None,
            created_at: 0,
        },
        starters: starter_ids
            .iter()
            .map(|id| StarterAssignment { player_id: *id, assigned_position: PlayerPosition::Fwd })
            .collect(),
        bench_player_ids: vec![0, 0, 0],
    }
}

fn member(user_id: u64, username: &str) -> LeagueMember {
    LeagueMember { user_id, username: username.to_string() }
}

#[test]
fn standings_rank_highest_first_and_keep_memberless_members() {
    let catalog = catalog();
    // member 21's starters hold 100 points; member 22's hold 0; member 23
    // has no roster at all
    let rosters = vec![
        roster_for(21, "Centurions", &[1, 2, 3, 3, 3, 3]),
        roster_for(22, "Blanks", &[3, 3, 3, 3, 3, 3]),
    ];
    let members = vec![member(22, "b"), member(23, "c"), member(21, "a")];
    let standings = league_standings(&members, &rosters, &catalog);
    assert_eq!(standings.len(), 3);
    // the 100-point member comes first
    assert_eq!(standings[0].user_id, 21);
    assert_eq!(standings[0].team_name, Some("Centurions".to_string()));
    assert_eq!(standings[0].total_points, Some(100));
    // the tie at 0 keeps fetched order: member 22 before member 23
    assert_eq!(standings[1].user_id, 22);
    assert_eq!(standings[1].total_points, Some(0));
    // the member with no roster appears, with zero points and no team name
    assert_eq!(standings[2].user_id, 23);
    assert_eq!(standings[2].team_name, None);
    assert_eq!(standings[2].total_points, Some(0));
}

#[test]
fn invite_codes_are_eight_alphanumerics() {
    for _ in 0..16 {
        let code = generate_invite_code();
        assert_eq!(code.len(), 8);
        assert!(code.chars().all(|c| c.is_ascii_uppercase() || c.is_ascii_digit()));
    }
}

#[test]
fn listing_filters_by_position_text() {
    let catalog = catalog();
    let query = PlayerQuery { position: Some("DEF".to_string()), search: None };
    let listed = filter_players(&catalog, &query);
    // primary defenders and secondary-eligible players both count
    let ids: Vec<u64> = listed.iter().map(|p| p.id).collect();
    assert_eq!(ids, vec![2, 1, 3]);
}

#[test]
fn listing_rejects_unknown_position_text() {
    let catalog = catalog();
    let query = PlayerQuery { position: Some("XYZ".to_string()), search: None };
    assert!(filter_players(&catalog, &query).is_empty());
}

#[test]
fn listing_search_ignores_ascii_case() {
    let catalog = catalog();
    let query = PlayerQuery { position: None, search: Some("dAs".to_string()) };
    let listed = filter_players(&catalog, &query);
    let ids: Vec<u64> = listed.iter().map(|p| p.id).collect();
    // "Nitesh Das" (40) ranks above "Bishal Das" (0)
    assert_eq!(ids, vec![1, 3]);
}

#[test]
fn listing_without_filters_ranks_by_points() {
    let catalog = catalog();
    let query = PlayerQuery { position: None, search: None };
    let listed = filter_players(&catalog, &query);
    let points: Vec<i32> = listed.iter().map(|p| p.total_points).collect();
    assert_eq!(points, vec![60, 40, 25, 0]);
}

#[test]
fn find_player_resolves_only_known_ids() {
    let catalog = catalog();
    assert_eq!(find_player(&catalog, 2).map(|p| p.name.clone()), Some("Kishor Dhakal".to_string()));
    assert!(find_player(&catalog, 77).is_none());
}

fn register(username: &str, full_name: &str, email: &str, password: &str) -> RegisterRequest {
    RegisterRequest {
        username: username.to_string(),
        full_name: full_name.to_string(),
        email: email.to_string(),
        password: password.to_string(),
    }
}

#[test]
fn registration_rules_fire_in_order() {
    assert!(validate_registration(&register("ram", "Ram Thapa", "ram@x.co", "secret1")).is_ok());
    assert_eq!(
        validate_registration(&register("ab", "Ram Thapa", "bad", "x")),
        Err(RegistrationError::UsernameTooShort)
    );
    assert_eq!(
        validate_registration(&register("ram", "   ", "ram@x.co", "secret1")),
        Err(RegistrationError::FullNameRequired)
    );
    assert_eq!(
        validate_registration(&register("ram", "Ram Thapa", "ram@x.co", "five5")),
        Err(RegistrationError::PasswordTooShort)
    );
    assert_eq!(
        validate_registration(&register("ram", "Ram Thapa", "ram.x.co", "secret1")),
        Err(RegistrationError::InvalidEmail)
    );
}

#[test]
fn name_matching_trims_and_folds_case() {
    assert!(names_match("  John DOE ", "john doe"));
    assert!(names_match("john doe", "JOHN DOE"));
    assert!(!names_match("john doe", "jane doe"));
    assert!(!names_match("john", "john doe"));
    assert!(names_match("   ", ""));
}

#[test]
fn token_claims_expire_one_lifetime_later() {
    let claims = token_claims(42, 1_700_000_000);
    assert_eq!(
        claims,
        Claims { sub: 42, exp: 1_700_000_000 + TOKEN_LIFETIME_SECS, iat: 1_700_000_000 }
    );
}

#[test]
fn bearer_header_parsing() {
    assert_eq!(strip_bearer("Bearer abc.def"), Some("abc.def"));
    assert_eq!(strip_bearer("Basic abc"), None);
    assert_eq!(strip_bearer("Bear"), None);
    assert_eq!(strip_bearer("Bearer "), Some(""));
}

#[test]
fn user_response_drops_the_password_hash() {
    let user = User {
        id: 9,
        username: "ram".to_string(),
        full_name: "Ram Thapa".to_string(),
        email: "ram@x.co".to_string(),
        password_hash: "argon2-digest".to_string(),
        created_at: 123,
    };
    let response: UserResponse = user.into();
    assert_eq!(
        response,
        UserResponse {
            id: 9,
            username: "ram".to_string(),
            email: "ram@x.co".to_string(),
            created_at: 123,
        }
    );
}

#[test]
fn empty_names_are_rejected_for_teams_and_leagues() {
    assert!(!team_name_valid(&CreateTeamRequest { name: "".to_string() }));
    assert!(team_name_valid(&CreateTeamRequest { name: "Gully XI".to_string() }));
    assert!(!league_name_valid(&CreateLeagueRequest { name: "".to_string() }));
    assert!(league_name_valid(&CreateLeagueRequest { name: "Friends".to_string() }));
}
