#![allow(non_snake_case)]

use goal_export::errors::PipelineError;
use goal_export::extract::extract_export_game_data;
use goal_export::extract::parse_goal_data;
use goal_export::extract::Event;
use goal_export::extract::EventDetails;
use goal_export::extract::GameExportData;
use goal_export::extract::GoalDetails;
use goal_export::extract::GoalInfo;
use goal_export::extract::IceSide;
use goal_export::extract::LandingResponse;
use goal_export::extract::PbpResponse;
use goal_export::extract::PeriodDetails;
use goal_export::extract::PeriodInfo;
use goal_export::extract::ScoringPeriod;
use goal_export::extract::Summary;
use goal_export::extract::Team;

//////////////////////////////////////////
//
// Landing endpoint tests
//
//////////////////////////////////////////

// Game with only regulation goals should have all goals
#[test]
fn extract_export_game_data_regl_only() {
    let period_1 = ScoringPeriod {
        periodDescriptor: PeriodDetails {
            periodType: String::from("REG"),
        },
        goals: vec![GoalInfo {
            eventId: 12,
            pptReplayUrl: Some(String::from("nhl.com")),
            homeTeamDefendingSide: String::from("right"),
            isHome: false,
        }],
    };
    let period_2 = ScoringPeriod {
        periodDescriptor: PeriodDetails {
            periodType: String::from("REG"),
        },
        goals: vec![],
    };
    let period_3 = ScoringPeriod {
        periodDescriptor: PeriodDetails {
            periodType: String::from("REG"),
        },
        goals: vec![
            GoalInfo {
                eventId: 120,
                pptReplayUrl: Some(String::from("nhl.com")),
                homeTeamDefendingSide: String::from("right"),
                isHome: false,
            },
            GoalInfo {
                eventId: 170,
                pptReplayUrl: Some(String::from("nhl.com")),
                homeTeamDefendingSide: String::from("left"),
                isHome: true,
            },
        ],
    };
    let summary = Summary {
        scoring: vec![period_1, period_2, period_3],
    };
    let landing_resp = LandingResponse {
        id: 2024000201,
        season: 20242025,
        gameDate: String::from("2024-10-29"),
        homeTeam: Team { id: 10 },
        awayTeam: Team { id: 19 },
        summary,
    };

    let actual_game_export = extract_export_game_data(&landing_resp).unwrap();
    let expected_game_export = GameExportData {
        home_team_id: 10,
        goals: vec![
            GoalDetails {
                event_id: 12,
                ppt_replay_url: Some(String::from("nhl.com")),
                scoring_team_id: 19,
                home_team_defending_side: IceSide::Right,
            },
            GoalDetails {
                event_id: 120,
                ppt_replay_url: Some(String::from("nhl.com")),
                scoring_team_id: 19,
                home_team_defending_side: IceSide::Right,
            },
            GoalDetails {
                event_id: 170,
                ppt_replay_url: Some(String::from("nhl.com")),
                scoring_team_id: 10,
                home_team_defending_side: IceSide::Left,
            },
        ],
    };

    assert_eq!(actual_game_export, expected_game_export);
}

// Game with only shootout goals should not have any goals
#[test]
fn extract_export_game_data_so_only() {
    let period_1 = ScoringPeriod {
        periodDescriptor: PeriodDetails {
            periodType: String::from("REG"),
        },
        goals: vec![],
    };
    let period_2 = ScoringPeriod {
        periodDescriptor: PeriodDetails {
            periodType: String::from("REG"),
        },
        goals: vec![],
    };
    let period_3 = ScoringPeriod {
        periodDescriptor: PeriodDetails {
            periodType: String::from("REG"),
        },
        goals: vec![],
    };
    let ot = ScoringPeriod {
        periodDescriptor: PeriodDetails {
            periodType: String::from("OT"),
        },
        goals: vec![],
    };
    let shootout = ScoringPeriod {
        periodDescriptor: PeriodDetails {
            periodType: String::from("SO"),
        },
        goals: vec![GoalInfo {
            eventId: 486,
            pptReplayUrl: Some(String::from("nhl.com")),
            homeTeamDefendingSide: String::from("right"),
            isHome: false,
        }],
    };
    let summary = Summary {
        scoring: vec![period_1, period_2, period_3, ot, shootout],
    };
    let landing_resp = LandingResponse {
        id: 2024000201,
        season: 20242025,
        gameDate: String::from("2024-10-29"),
        homeTeam: Team { id: 10 },
        awayTeam: Team { id: 19 },
        summary,
    };

    let actual_game_export = extract_export_game_data(&landing_resp).unwrap();
    let expected_game_export = GameExportData {
        home_team_id: 10,
        goals: vec![],
    };

    assert_eq!(actual_game_export, expected_game_export);
}

// Game with regulation and shootout goals should only have the regulation
// goals
#[test]
fn extract_export_game_data_regl_so() {
    let period_1 = ScoringPeriod {
        periodDescriptor: PeriodDetails {
            periodType: String::from("REG"),
        },
        goals: vec![GoalInfo {
            eventId: 12,
            pptReplayUrl: Some(String::from("nhl.com")),
            homeTeamDefendingSide: String::from("right"),
            isHome: false,
        }],
    };
    let period_2 = ScoringPeriod {
        periodDescriptor: PeriodDetails {
            periodType: String::from("REG"),
        },
        goals: vec![],
    };
    let period_3 = ScoringPeriod {
        periodDescriptor: PeriodDetails {
            periodType: String::from("REG"),
        },
        goals: vec![],
    };
    let ot = ScoringPeriod {
        periodDescriptor: PeriodDetails {
            periodType: String::from("OT"),
        },
        goals: vec![],
    };
    let shootout = ScoringPeriod {
        periodDescriptor: PeriodDetails {
            periodType: String::from("SO"),
        },
        goals: vec![GoalInfo {
            eventId: 486,
            pptReplayUrl: Some(String::from("nhl.com")),
            homeTeamDefendingSide: String::from("right"),
            isHome: false,
        }],
    };
    let summary = Summary {
        scoring: vec![period_1, period_2, period_3, ot, shootout],
    };
    let landing_resp = LandingResponse {
        id: 2024000201,
        season: 20242025,
        gameDate: String::from("2024-10-29"),
        homeTeam: Team { id: 10 },
        awayTeam: Team { id: 19 },
        summary,
    };

    let actual_game_export = extract_export_game_data(&landing_resp).unwrap();
    let expected_game_export = GameExportData {
        home_team_id: 10,
        goals: vec![GoalDetails {
            event_id: 12,
            ppt_replay_url: Some(String::from("nhl.com")),
            scoring_team_id: 19,
            home_team_defending_side: IceSide::Right,
        }],
    };

    assert_eq!(actual_game_export, expected_game_export);
}

// Game with regulation and an overtime goal should have all the goals
#[test]
fn extract_export_game_data_regl_ot() {
    let period_1 = ScoringPeriod {
        periodDescriptor: PeriodDetails {
            periodType: String::from("REG"),
        },
        goals: vec![GoalInfo {
            eventId: 12,
            pptReplayUrl: Some(String::from("nhl.com")),
            homeTeamDefendingSide: String::from("right"),
            isHome: false,
        }],
    };
    let period_2 = ScoringPeriod {
        periodDescriptor: PeriodDetails {
            periodType: String::from("REG"),
        },
        goals: vec![GoalInfo {
            eventId: 200,
            pptReplayUrl: Some(String::from("nhl.com")),
            homeTeamDefendingSide: String::from("left"),
            isHome: false,
        }],
    };
    let period_3 = ScoringPeriod {
        periodDescriptor: PeriodDetails {
            periodType: String::from("REG"),
        },
        goals: vec![
            GoalInfo {
                eventId: 312,
                pptReplayUrl: Some(String::from("nhl.com")),
                homeTeamDefendingSide: String::from("right"),
                isHome: true,
            },
            GoalInfo {
                eventId: 351,
                pptReplayUrl: Some(String::from("nhl.com")),
                homeTeamDefendingSide: String::from("right"),
                isHome: true,
            },
        ],
    };
    let ot = ScoringPeriod {
        periodDescriptor: PeriodDetails {
            periodType: String::from("OT"),
        },
        goals: vec![GoalInfo {
            eventId: 1114,
            pptReplayUrl: Some(String::from("nhl.com")),
            homeTeamDefendingSide: String::from("left"),
            isHome: true,
        }],
    };
    let summary = Summary {
        scoring: vec![period_1, period_2, period_3, ot],
    };
    let landing_resp = LandingResponse {
        id: 2024000201,
        season: 20242025,
        gameDate: String::from("2024-10-29"),
        homeTeam: Team { id: 10 },
        awayTeam: Team { id: 19 },
        summary,
    };

    let actual_game_export = extract_export_game_data(&landing_resp).unwrap();
    let expected_game_export = GameExportData {
        home_team_id: 10,
        goals: vec![
            GoalDetails {
                event_id: 12,
                ppt_replay_url: Some(String::from("nhl.com")),
                scoring_team_id: 19,
                home_team_defending_side: IceSide::Right,
            },
            GoalDetails {
                event_id: 200,
                ppt_replay_url: Some(String::from("nhl.com")),
                scoring_team_id: 19,
                home_team_defending_side: IceSide::Left,
            },
            GoalDetails {
                event_id: 312,
                ppt_replay_url: Some(String::from("nhl.com")),
                scoring_team_id: 10,
                home_team_defending_side: IceSide::Right,
            },
            GoalDetails {
                event_id: 351,
                ppt_replay_url: Some(String::from("nhl.com")),
                scoring_team_id: 10,
                home_team_defending_side: IceSide::Right,
            },
            GoalDetails {
                event_id: 1114,
                ppt_replay_url: Some(String::from("nhl.com")),
                scoring_team_id: 10,
                home_team_defending_side: IceSide::Left,
            },
        ],
    };

    assert_eq!(actual_game_export, expected_game_export);
}

// An unrecognized defending side fails the whole summary extraction, even
// though other goals are fine
#[test]
fn extract_export_game_data_bad_side_fails() {
    let period_1 = ScoringPeriod {
        periodDescriptor: PeriodDetails {
            periodType: String::from("REG"),
        },
        goals: vec![
            GoalInfo {
                eventId: 12,
                pptReplayUrl: Some(String::from("nhl.com")),
                homeTeamDefendingSide: String::from("right"),
                isHome: false,
            },
            GoalInfo {
                eventId: 13,
                pptReplayUrl: Some(String::from("nhl.com")),
                homeTeamDefendingSide: String::from("center"),
                isHome: true,
            },
        ],
    };
    let summary = Summary {
        scoring: vec![period_1],
    };
    let landing_resp = LandingResponse {
        id: 77,
        season: 20242025,
        gameDate: String::from("2024-10-29"),
        homeTeam: Team { id: 10 },
        awayTeam: Team { id: 19 },
        summary,
    };

    let err = extract_export_game_data(&landing_resp).unwrap_err();
    assert_eq!(
        err,
        PipelineError::InvalidDefendingSide {
            event_id: 13,
            game_id: 77
        }
    );
}

// A malformed side inside a shootout period does not matter: the period is
// skipped before its goals are read
#[test]
fn extract_export_game_data_bad_side_in_shootout_ignored() {
    let shootout = ScoringPeriod {
        periodDescriptor: PeriodDetails {
            periodType: String::from("SO"),
        },
        goals: vec![GoalInfo {
            eventId: 9,
            pptReplayUrl: None,
            homeTeamDefendingSide: String::from("sideways"),
            isHome: true,
        }],
    };
    let summary = Summary {
        scoring: vec![shootout],
    };
    let landing_resp = LandingResponse {
        id: 5,
        season: 20242025,
        gameDate: String::from("2024-10-29"),
        homeTeam: Team { id: 10 },
        awayTeam: Team { id: 19 },
        summary,
    };

    let actual_game_export = extract_export_game_data(&landing_resp).unwrap();
    assert_eq!(actual_game_export.goals.len(), 0);
}

// The two extraction variants agree on equivalent underlying game data
// expressed in each shape: same event ids, scoring team ids and defending
// sides, in the same order
#[test]
fn variants_agree_on_equivalent_data() {
    let summary = Summary {
        scoring: vec![
            ScoringPeriod {
                periodDescriptor: PeriodDetails {
                    periodType: String::from("REG"),
                },
                goals: vec![GoalInfo {
                    eventId: 21,
                    pptReplayUrl: Some(String::from("nhl.com/ev21")),
                    homeTeamDefendingSide: String::from("left"),
                    isHome: true,
                }],
            },
            ScoringPeriod {
                periodDescriptor: PeriodDetails {
                    periodType: String::from("OT"),
                },
                goals: vec![GoalInfo {
                    eventId: 40,
                    pptReplayUrl: None,
                    homeTeamDefendingSide: String::from("right"),
                    isHome: false,
                }],
            },
        ],
    };
    let landing_resp = LandingResponse {
        id: 300,
        season: 20242025,
        gameDate: String::from("2024-11-02"),
        homeTeam: Team { id: 8 },
        awayTeam: Team { id: 14 },
        summary,
    };
    let pbp_info = PbpResponse {
        plays: vec![
            Event {
                details: Some(EventDetails {
                    eventOwnerTeamId: Some(8),
                }),
                eventId: 21,
                homeTeamDefendingSide: String::from("left"),
                pptReplayUrl: Some(String::from("nhl.com/ev21")),
                typeDescKey: String::from("goal"),
                periodDescriptor: PeriodInfo {
                    periodType: String::from("REG"),
                },
            },
            Event {
                details: Some(EventDetails {
                    eventOwnerTeamId: Some(14),
                }),
                eventId: 40,
                homeTeamDefendingSide: String::from("right"),
                pptReplayUrl: None,
                typeDescKey: String::from("goal"),
                periodDescriptor: PeriodInfo {
                    periodType: String::from("OT"),
                },
            },
        ],
        id: 300,
        season: 20242025,
        homeTeam: Team { id: 8 },
        gameDate: String::from("2024-11-02"),
    };

    let from_summary = extract_export_game_data(&landing_resp).unwrap();
    let from_stream = parse_goal_data(pbp_info);
    assert_eq!(from_summary, from_stream);
}
