#![allow(non_snake_case)]

use goal_export::extract::combine_pbp_boxscore_info;
use goal_export::extract::parse_goal_data;
use goal_export::extract::BoxscoreInfo;
use goal_export::extract::Event;
use goal_export::extract::EventDetails;
use goal_export::extract::GoalDetails;
use goal_export::extract::IceSide;
use goal_export::extract::PbpBoxscoreInfo;
use goal_export::extract::PbpResponse;
use goal_export::extract::PeriodInfo;
use goal_export::extract::Team;

/////////////////////////////////////
//
// combine_pbp_boxscore_info() tests
//
/////////////////////////////////////

#[test]
fn combine_pbp_boxscore_id_matches() {
    let goals = vec![GoalDetails {
        scoring_team_id: 19,
        event_id: 502,
        home_team_defending_side: IceSide::Left,
        ppt_replay_url: Some(String::from("https://nhl.com")),
    }];
    let boxscore = BoxscoreInfo { home_team_id: 19 };

    let expected_combined = PbpBoxscoreInfo {
        goals: goals.clone(),
        home_team_id: 19,
    };
    let actual_combined = combine_pbp_boxscore_info(goals, boxscore);
    assert_eq!(expected_combined.home_team_id, actual_combined.home_team_id);
    assert_eq!(expected_combined.goals.len(), actual_combined.goals.len());
    assert_eq!(
        expected_combined.goals[0].event_id,
        actual_combined.goals[0].event_id
    );
    assert_eq!(
        expected_combined.goals[0].home_team_defending_side,
        actual_combined.goals[0].home_team_defending_side
    );
    assert_eq!(
        expected_combined.goals[0].scoring_team_id,
        actual_combined.goals[0].scoring_team_id
    );
    assert_eq!(
        expected_combined.goals[0].ppt_replay_url,
        actual_combined.goals[0].ppt_replay_url
    );
}

//////////////////////////////////////
//
// parse_goal_data() tests
//
//////////////////////////////////////

// no goals results in an empty vec
#[test]
fn parse_goal_data_no_goals() {
    let plays = vec![Event {
        details: Some(EventDetails {
            eventOwnerTeamId: Some(1),
        }),
        eventId: 90,
        homeTeamDefendingSide: String::from("right"),
        pptReplayUrl: Some(String::from("nhl.com")),
        typeDescKey: String::from("shot"),
        periodDescriptor: PeriodInfo {
            periodType: String::from("REG"),
        },
    }];
    let pbp_info = PbpResponse {
        plays,
        id: 1,
        season: 20252025,
        homeTeam: Team { id: 19 },
        gameDate: String::from("2025-05-02"),
    };

    let actual_goal_details = parse_goal_data(pbp_info);

    assert_eq!(actual_goal_details.goals.len(), 0);
}

// one goal results in a vec with just that one goal
#[test]
fn parse_goal_data_one_goal() {
    let plays = vec![
        Event {
            details: Some(EventDetails {
                eventOwnerTeamId: Some(19),
            }),
            eventId: 89,
            homeTeamDefendingSide: String::from("left"),
            pptReplayUrl: Some(String::from("nhl.com")),
            typeDescKey: String::from("shot"),
            periodDescriptor: PeriodInfo {
                periodType: String::from("REG"),
            },
        },
        Event {
            details: Some(EventDetails {
                eventOwnerTeamId: Some(1),
            }),
            eventId: 90,
            homeTeamDefendingSide: String::from("right"),
            pptReplayUrl: Some(String::from("nhl.com")),
            typeDescKey: String::from("goal"),
            periodDescriptor: PeriodInfo {
                periodType: String::from("REG"),
            },
        },
    ];
    let pbp_info = PbpResponse {
        plays,
        id: 1,
        season: 20252025,
        homeTeam: Team { id: 19 },
        gameDate: String::from("2025-05-02"),
    };

    let actual_goal_details = parse_goal_data(pbp_info);
    let expected_goal_details = vec![GoalDetails {
        event_id: 90,
        home_team_defending_side: IceSide::Right,
        ppt_replay_url: Some(String::from("nhl.com")),
        scoring_team_id: 1,
    }];

    assert_eq!(actual_goal_details.goals, expected_goal_details);
}

// several goals results in a vec with just all the goals
#[test]
fn parse_goal_data_many_goals() {
    let plays = vec![
        Event {
            details: Some(EventDetails {
                eventOwnerTeamId: Some(19),
            }),
            eventId: 89,
            homeTeamDefendingSide: String::from("left"),
            pptReplayUrl: Some(String::from("nhl.com")),
            typeDescKey: String::from("shot"),
            periodDescriptor: PeriodInfo {
                periodType: String::from("REG"),
            },
        },
        Event {
            details: Some(EventDetails {
                eventOwnerTeamId: Some(1),
            }),
            eventId: 90,
            homeTeamDefendingSide: String::from("right"),
            pptReplayUrl: Some(String::from("nhl.com/ev90")),
            typeDescKey: String::from("goal"),
            periodDescriptor: PeriodInfo {
                periodType: String::from("REG"),
            },
        },
        Event {
            details: Some(EventDetails {
                eventOwnerTeamId: Some(1),
            }),
            eventId: 91,
            homeTeamDefendingSide: String::from("right"),
            pptReplayUrl: Some(String::from("nhl.com")),
            typeDescKey: String::from("faceoff"),
            periodDescriptor: PeriodInfo {
                periodType: String::from("REG"),
            },
        },
        Event {
            details: Some(EventDetails {
                eventOwnerTeamId: Some(19),
            }),
            eventId: 92,
            homeTeamDefendingSide: String::from("left"),
            pptReplayUrl: Some(String::from("nhl.com/ev92")),
            typeDescKey: String::from("goal"),
            periodDescriptor: PeriodInfo {
                periodType: String::from("REG"),
            },
        },
        Event {
            details: Some(EventDetails {
                eventOwnerTeamId: Some(1),
            }),
            eventId: 93,
            homeTeamDefendingSide: String::from("right"),
            pptReplayUrl: Some(String::from("nhl.com/ev93")),
            typeDescKey: String::from("goal"),
            periodDescriptor: PeriodInfo {
                periodType: String::from("REG"),
            },
        },
    ];
    let pbp_info = PbpResponse {
        plays,
        id: 1,
        season: 20252025,
        homeTeam: Team { id: 19 },
        gameDate: String::from("2025-05-02"),
    };

    let actual_goal_details = parse_goal_data(pbp_info);
    let expected_goal_details = vec![
        GoalDetails {
            event_id: 90,
            home_team_defending_side: IceSide::Right,
            ppt_replay_url: Some(String::from("nhl.com/ev90")),
            scoring_team_id: 1,
        },
        GoalDetails {
            event_id: 92,
            home_team_defending_side: IceSide::Left,
            ppt_replay_url: Some(String::from("nhl.com/ev92")),
            scoring_team_id: 19,
        },
        GoalDetails {
            event_id: 93,
            home_team_defending_side: IceSide::Right,
            ppt_replay_url: Some(String::from("nhl.com/ev93")),
            scoring_team_id: 1,
        },
    ];

    assert_eq!(actual_goal_details.goals, expected_goal_details);
}

// a game with only shootout goals should have no goals
#[test]
fn parse_goal_only_shootout() {
    let plays = vec![
        Event {
            details: Some(EventDetails {
                eventOwnerTeamId: Some(19),
            }),
            eventId: 89,
            homeTeamDefendingSide: String::from("left"),
            pptReplayUrl: Some(String::from("nhl.com")),
            typeDescKey: String::from("shot"),
            periodDescriptor: PeriodInfo {
                periodType: String::from("REG"),
            },
        },
        Event {
            details: Some(EventDetails {
                eventOwnerTeamId: Some(1),
            }),
            eventId: 90,
            homeTeamDefendingSide: String::from("right"),
            pptReplayUrl: Some(String::from("nhl.com/ev90")),
            typeDescKey: String::from("goal"),
            periodDescriptor: PeriodInfo {
                periodType: String::from("SO"),
            },
        },
        Event {
            details: Some(EventDetails {
                eventOwnerTeamId: Some(1),
            }),
            eventId: 91,
            homeTeamDefendingSide: String::from("right"),
            pptReplayUrl: Some(String::from("nhl.com")),
            typeDescKey: String::from("faceoff"),
            periodDescriptor: PeriodInfo {
                periodType: String::from("REG"),
            },
        },
        Event {
            details: Some(EventDetails {
                eventOwnerTeamId: Some(19),
            }),
            eventId: 92,
            homeTeamDefendingSide: String::from("left"),
            pptReplayUrl: Some(String::from("nhl.com/ev92")),
            typeDescKey: String::from("goal"),
            periodDescriptor: PeriodInfo {
                periodType: String::from("SO"),
            },
        },
        Event {
            details: Some(EventDetails {
                eventOwnerTeamId: Some(1),
            }),
            eventId: 93,
            homeTeamDefendingSide: String::from("right"),
            pptReplayUrl: Some(String::from("nhl.com/ev93")),
            typeDescKey: String::from("goal"),
            periodDescriptor: PeriodInfo {
                periodType: String::from("SO"),
            },
        },
    ];
    let pbp_info = PbpResponse {
        plays,
        id: 1,
        season: 20252025,
        homeTeam: Team { id: 19 },
        gameDate: String::from("2025-05-02"),
    };

    let actual_goal_details = parse_goal_data(pbp_info);
    let expected_goal_details: Vec<GoalDetails> = vec![];

    assert_eq!(actual_goal_details.goals, expected_goal_details);
}

// a game with both regular goals and shootout goals should have just
// the regular goals
#[test]
fn parse_goal_regular_shootout() {
    let plays = vec![
        Event {
            details: Some(EventDetails {
                eventOwnerTeamId: Some(19),
            }),
            eventId: 89,
            homeTeamDefendingSide: String::from("left"),
            pptReplayUrl: Some(String::from("nhl.com")),
            typeDescKey: String::from("shot"),
            periodDescriptor: PeriodInfo {
                periodType: String::from("REG"),
            },
        },
        Event {
            details: Some(EventDetails {
                eventOwnerTeamId: Some(1),
            }),
            eventId: 90,
            homeTeamDefendingSide: String::from("right"),
            pptReplayUrl: Some(String::from("nhl.com/ev90")),
            typeDescKey: String::from("goal"),
            periodDescriptor: PeriodInfo {
                periodType: String::from("SO"),
            },
        },
        Event {
            details: Some(EventDetails {
                eventOwnerTeamId: Some(1),
            }),
            eventId: 91,
            homeTeamDefendingSide: String::from("right"),
            pptReplayUrl: Some(String::from("nhl.com")),
            typeDescKey: String::from("faceoff"),
            periodDescriptor: PeriodInfo {
                periodType: String::from("REG"),
            },
        },
        Event {
            details: Some(EventDetails {
                eventOwnerTeamId: Some(19),
            }),
            eventId: 92,
            homeTeamDefendingSide: String::from("left"),
            pptReplayUrl: Some(String::from("nhl.com/ev92")),
            typeDescKey: String::from("goal"),
            periodDescriptor: PeriodInfo {
                periodType: String::from("SO"),
            },
        },
        Event {
            details: Some(EventDetails {
                eventOwnerTeamId: Some(1),
            }),
            eventId: 93,
            homeTeamDefendingSide: String::from("right"),
            pptReplayUrl: Some(String::from("nhl.com/ev93")),
            typeDescKey: String::from("goal"),
            periodDescriptor: PeriodInfo {
                periodType: String::from("REG"),
            },
        },
    ];
    let pbp_info = PbpResponse {
        plays,
        id: 1,
        season: 20252025,
        homeTeam: Team { id: 19 },
        gameDate: String::from("2025-05-02"),
    };

    let actual_goal_details = parse_goal_data(pbp_info);
    let expected_goal_details = vec![GoalDetails {
        event_id: 93,
        home_team_defending_side: IceSide::Right,
        ppt_replay_url: Some(String::from("nhl.com/ev93")),
        scoring_team_id: 1,
    }];

    assert_eq!(actual_goal_details.goals, expected_goal_details);
}

// a game with both regulation goals and an overtime goal
#[test]
fn parse_goal_regulation_ot() {
    let plays = vec![
        Event {
            details: Some(EventDetails {
                eventOwnerTeamId: Some(19),
            }),
            eventId: 89,
            homeTeamDefendingSide: String::from("left"),
            pptReplayUrl: Some(String::from("nhl.com")),
            typeDescKey: String::from("shot"),
            periodDescriptor: PeriodInfo {
                periodType: String::from("REG"),
            },
        },
        Event {
            details: Some(EventDetails {
                eventOwnerTeamId: Some(1),
            }),
            eventId: 90,
            homeTeamDefendingSide: String::from("right"),
            pptReplayUrl: Some(String::from("nhl.com/ev90")),
            typeDescKey: String::from("goal"),
            periodDescriptor: PeriodInfo {
                periodType: String::from("REG"),
            },
        },
        Event {
            details: Some(EventDetails {
                eventOwnerTeamId: Some(1),
            }),
            eventId: 91,
            homeTeamDefendingSide: String::from("right"),
            pptReplayUrl: Some(String::from("nhl.com")),
            typeDescKey: String::from("faceoff"),
            periodDescriptor: PeriodInfo {
                periodType: String::from("REG"),
            },
        },
        Event {
            details: Some(EventDetails {
                eventOwnerTeamId: Some(19),
            }),
            eventId: 92,
            homeTeamDefendingSide: String::from("left"),
            pptReplayUrl: Some(String::from("nhl.com/ev92")),
            typeDescKey: String::from("goal"),
            periodDescriptor: PeriodInfo {
                periodType: String::from("REG"),
            },
        },
        Event {
            details: Some(EventDetails {
                eventOwnerTeamId: Some(1),
            }),
            eventId: 93,
            homeTeamDefendingSide: String::from("right"),
            pptReplayUrl: Some(String::from("nhl.com/ev93")),
            typeDescKey: String::from("goal"),
            periodDescriptor: PeriodInfo {
                periodType: String::from("OT"),
            },
        },
    ];
    let pbp_info = PbpResponse {
        plays,
        id: 1,
        season: 20252025,
        homeTeam: Team { id: 19 },
        gameDate: String::from("2025-05-02"),
    };

    let actual_goal_details = parse_goal_data(pbp_info);
    let expected_goal_details = vec![
        GoalDetails {
            event_id: 90,
            home_team_defending_side: IceSide::Right,
            ppt_replay_url: Some(String::from("nhl.com/ev90")),
            scoring_team_id: 1,
        },
        GoalDetails {
            event_id: 92,
            home_team_defending_side: IceSide::Left,
            ppt_replay_url: Some(String::from("nhl.com/ev92")),
            scoring_team_id: 19,
        },
        GoalDetails {
            event_id: 93,
            home_team_defending_side: IceSide::Right,
            ppt_replay_url: Some(String::from("nhl.com/ev93")),
            scoring_team_id: 1,
        },
    ];

    assert_eq!(actual_goal_details.goals, expected_goal_details);
}

// a game where some goals don't have the replay URL
// need to include those goals too
#[test]
fn parse_goal_missing_replay_urls() {
    let plays = vec![
        Event {
            details: Some(EventDetails {
                eventOwnerTeamId: Some(19),
            }),
            eventId: 89,
            homeTeamDefendingSide: String::from("left"),
            pptReplayUrl: Some(String::from("nhl.com")),
            typeDescKey: String::from("shot"),
            periodDescriptor: PeriodInfo {
                periodType: String::from("REG"),
            },
        },
        Event {
            details: Some(EventDetails {
                eventOwnerTeamId: Some(1),
            }),
            eventId: 90,
            homeTeamDefendingSide: String::from("right"),
            pptReplayUrl: Some(String::from("nhl.com/ev90")),
            typeDescKey: String::from("goal"),
            periodDescriptor: PeriodInfo {
                periodType: String::from("REG"),
            },
        },
        Event {
            details: Some(EventDetails {
                eventOwnerTeamId: Some(1),
            }),
            eventId: 91,
            homeTeamDefendingSide: String::from("right"),
            pptReplayUrl: Some(String::from("nhl.com")),
            typeDescKey: String::from("faceoff"),
            periodDescriptor: PeriodInfo {
                periodType: String::from("REG"),
            },
        },
        Event {
            details: Some(EventDetails {
                eventOwnerTeamId: Some(19),
            }),
            eventId: 92,
            homeTeamDefendingSide: String::from("left"),
            pptReplayUrl: None,
            typeDescKey: String::from("goal"),
            periodDescriptor: PeriodInfo {
                periodType: String::from("REG"),
            },
        },
        Event {
            details: Some(EventDetails {
                eventOwnerTeamId: Some(1),
            }),
            eventId: 93,
            homeTeamDefendingSide: String::from("right"),
            pptReplayUrl: None,
            typeDescKey: String::from("goal"),
            periodDescriptor: PeriodInfo {
                periodType: String::from("OT"),
            },
        },
    ];
    let pbp_info = PbpResponse {
        plays,
        id: 1,
        season: 20252025,
        homeTeam: Team { id: 19 },
        gameDate: String::from("2025-05-02"),
    };

    let actual_goal_details = parse_goal_data(pbp_info);
    let expected_goal_details = vec![
        GoalDetails {
            event_id: 90,
            home_team_defending_side: IceSide::Right,
            ppt_replay_url: Some(String::from("nhl.com/ev90")),
            scoring_team_id: 1,
        },
        GoalDetails {
            event_id: 92,
            home_team_defending_side: IceSide::Left,
            ppt_replay_url: None,
            scoring_team_id: 19,
        },
        GoalDetails {
            event_id: 93,
            home_team_defending_side: IceSide::Right,
            ppt_replay_url: None,
            scoring_team_id: 1,
        },
    ];

    assert_eq!(actual_goal_details.goals, expected_goal_details);
}

// a goal event without the nested detail block is skipped, one without an
// owner team id inside it too; the surrounding goals are kept
#[test]
fn parse_goal_missing_details_skipped() {
    let plays = vec![
        Event {
            details: None,
            eventId: 90,
            homeTeamDefendingSide: String::from("right"),
            pptReplayUrl: Some(String::from("nhl.com/ev90")),
            typeDescKey: String::from("goal"),
            periodDescriptor: PeriodInfo {
                periodType: String::from("REG"),
            },
        },
        Event {
            details: Some(EventDetails {
                eventOwnerTeamId: None,
            }),
            eventId: 91,
            homeTeamDefendingSide: String::from("right"),
            pptReplayUrl: Some(String::from("nhl.com/ev91")),
            typeDescKey: String::from("goal"),
            periodDescriptor: PeriodInfo {
                periodType: String::from("REG"),
            },
        },
        Event {
            details: Some(EventDetails {
                eventOwnerTeamId: Some(7),
            }),
            eventId: 92,
            homeTeamDefendingSide: String::from("left"),
            pptReplayUrl: None,
            typeDescKey: String::from("goal"),
            periodDescriptor: PeriodInfo {
                periodType: String::from("REG"),
            },
        },
    ];
    let pbp_info = PbpResponse {
        plays,
        id: 1,
        season: 20252025,
        homeTeam: Team { id: 7 },
        gameDate: String::from("2025-05-02"),
    };

    let actual_goal_details = parse_goal_data(pbp_info);
    let expected_goal_details = vec![GoalDetails {
        event_id: 92,
        home_team_defending_side: IceSide::Left,
        ppt_replay_url: None,
        scoring_team_id: 7,
    }];

    assert_eq!(actual_goal_details.goals, expected_goal_details);
}

// an event stream with one shootout-tagged goal and one regulation-tagged
// goal yields exactly the regulation goal
#[test]
fn parse_goal_one_shootout_one_regulation() {
    let plays = vec![
        Event {
            details: Some(EventDetails {
                eventOwnerTeamId: Some(3),
            }),
            eventId: 50,
            homeTeamDefendingSide: String::from("left"),
            pptReplayUrl: Some(String::from("nhl.com/ev50")),
            typeDescKey: String::from("goal"),
            periodDescriptor: PeriodInfo {
                periodType: String::from("SO"),
            },
        },
        Event {
            details: Some(EventDetails {
                eventOwnerTeamId: Some(4),
            }),
            eventId: 51,
            homeTeamDefendingSide: String::from("right"),
            pptReplayUrl: Some(String::from("nhl.com/ev51")),
            typeDescKey: String::from("goal"),
            periodDescriptor: PeriodInfo {
                periodType: String::from("REG"),
            },
        },
    ];
    let pbp_info = PbpResponse {
        plays,
        id: 2,
        season: 20252025,
        homeTeam: Team { id: 4 },
        gameDate: String::from("2025-05-02"),
    };

    let actual_goal_details = parse_goal_data(pbp_info);
    let expected_goal_details = vec![GoalDetails {
        event_id: 51,
        home_team_defending_side: IceSide::Right,
        ppt_replay_url: Some(String::from("nhl.com/ev51")),
        scoring_team_id: 4,
    }];

    assert_eq!(actual_goal_details.goals, expected_goal_details);
}
