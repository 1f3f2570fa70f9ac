//! The data that the tournament service and its pages exchange.
//!
//! Fees, coordinates and times inside a video are of a type `F` that the library never looks into.
use std::collections::HashMap;
use vstd::prelude::*;
use crate::text;
use crate::text::eq_ignore_ascii_case;

verus! {

#[derive(Clone, Debug, PartialEq)]
pub struct User {
    pub id: String,
    pub name: String,
    pub user_type: String,
    /// True if the account has a password set (can change password). False for Google-only accounts.
    pub has_password: bool,
}

#[derive(Clone, Debug, PartialEq)]
pub struct Tournament<F> {
    pub url: String,
    pub name: String,
    pub start_date: String,
    pub end_date: Option<String>,
    pub location: Option<String>,
    pub published: bool,
    pub n_max_teams: Option<u32>,
    pub schedule_published: bool,
    pub registration_open: bool,
    pub team_registration_open: bool,
    pub player_registration_open: bool,
    pub bracket: bool,
    pub about: Option<String>,
    pub team_reg_fee: Option<F>,
    pub player_reg_fee: Option<F>,
    pub max_team_size_roster: Option<u32>,
    pub max_team_size_field: Option<u32>,
    pub terms_link: Option<String>,
    pub waiver_required: bool,
    pub waiver_filepath: Option<String>,
    pub waiver_sha256: Option<String>,
    pub head_refs_allowed_list: Option<String>,
    pub head_refs_allow_reffing_teams: bool,
    pub head_refs_allow_anyone: bool,
    /// When set, this tournament is part of a league; registration is via the league.
    pub league: Option<LeagueRef<F>>,
}

#[derive(Clone, Debug, PartialEq)]
pub struct LeagueRef<F> {
    pub league_url: String,
    pub name: String,
    pub registration_open: bool,
    pub team_registration_open: bool,
    pub player_registration_open: bool,
    pub team_reg_fee: Option<F>,
    pub player_reg_fee: Option<F>,
}

#[derive(Clone, Debug)]
pub struct TournamentsResponse<F> {
    pub tournaments: Vec<Tournament<F>>,
    pub team_counts: HashMap<String, u32>,
    pub user_reg_status: HashMap<String, UserRegStatus<F>>,
}

#[derive(Clone, Debug, PartialEq)]
pub struct UserRegStatus<F> {
    pub reg_type: String,
    pub status: String,
    pub paid: bool,
    pub amount_paid: F,
    pub waiver_required: bool,
    pub waiver_status: Option<String>,
}

#[derive(Clone, Debug)]
pub struct CheckUsernameResponse {
    pub available: bool,
    pub message: String,
}

#[derive(Clone, Debug, PartialEq)]
pub struct TeamWithCount {
    pub team_id: String,
    pub team_name: String,
    pub pseudonym: Option<String>,
    pub shortname: Option<String>,
    pub player_count: u32,
    pub registered_at: Option<String>,
    pub profile_photo: Option<String>,
}

#[derive(Clone, Debug)]
pub struct UnattachedPlayer {
    pub player_id: String,
    pub player_name: String,
    pub jersey_number: Option<String>,
    pub jersey_name: Option<String>,
    pub registered_at: Option<String>,
    pub profile_photo: Option<String>,
}

#[derive(Clone, Debug, PartialEq)]
pub struct LeagueInfo<F> {
    pub league_url: String,
    pub name: String,
    pub about: Option<String>,
    pub team_reg_fee: Option<F>,
    pub player_reg_fee: Option<F>,
    pub registration_open: bool,
    pub team_registration_open: bool,
    pub player_registration_open: bool,
    pub published: bool,
    pub terms_link: Option<String>,
    pub waiver_required: bool,
    pub waiver_filepath: Option<String>,
    pub waiver_sha256: Option<String>,
    pub n_max_teams: Option<u32>,
    pub max_team_size_roster: Option<u32>,
    pub max_team_size_field: Option<u32>,
}

#[derive(Clone, Debug)]
pub struct LeaguesListResponse<F> {
    pub leagues: Vec<LeagueInfo<F>>,
    pub team_counts: HashMap<String, u32>,
    pub user_reg_status: HashMap<String, UserRegStatus<F>>,
}

#[derive(Clone, Debug)]
pub struct LeagueDetailResponse<F> {
    pub league: LeagueInfo<F>,
    pub events: Vec<Tournament<F>>,
    pub teams_with_counts: Vec<TeamWithCount>,
    pub unattached_players: Vec<UnattachedPlayer>,
    pub to_entries: Vec<ToEntry>,
    pub is_current_team_registered: bool,
    pub is_current_player_registered: bool,
    pub penalty_types: Vec<PenaltyType>,
}

#[derive(Clone, Debug)]
pub struct LeagueResultsResponse<F> {
    pub league: LeagueInfo<F>,
    pub teams: Vec<TeamResultRow>,
}

#[derive(Clone, Debug)]
pub struct TournamentDetailResponse<F> {
    pub tournament: Tournament<F>,
    pub teams_with_counts: Vec<TeamWithCount>,
    pub unattached_players: Vec<UnattachedPlayer>,
    pub to_entries: Vec<ToEntry>,
    pub is_current_team_registered: bool,
    pub is_current_player_registered: bool,
    pub penalty_types: Vec<PenaltyType>,
    pub manual_footage_uploads_enabled: bool,
}

#[derive(Clone, Debug)]
pub struct TournamentManageResponse<F> {
    pub tournament: Tournament<F>,
    pub search_query: String,
    pub search_type: String,
    pub team_registrations: Vec<ManageTeamRegistration<F>>,
    pub player_registrations: Vec<ManagePlayerRegistration<F>>,
}

#[derive(Clone, Debug)]
pub struct ManageTeamRegistration<F> {
    pub registration: ManageTeamRegistrationData<F>,
    pub team: ManageTeamInfo,
}

#[derive(Clone, Debug)]
pub struct ManageTeamRegistrationData<F> {
    pub id: u32,
    pub team: String,
    pub pseudonym: String,
    pub shortname: Option<String>,
    pub status: String,
    pub paid: bool,
    pub amount_paid: F,
    pub registered_at: Option<String>,
    pub paid_at: Option<String>,
}

#[derive(Clone, Debug)]
pub struct ManageTeamInfo {
    pub id: String,
    pub name: String,
}

#[derive(Clone, Debug)]
pub struct ManagePlayerRegistration<F> {
    pub registration: ManagePlayerRegistrationData<F>,
    pub player: ManagePlayerInfo,
    pub team: Option<ManageTeamInfo>,
}

#[derive(Clone, Debug)]
pub struct ManagePlayerRegistrationData<F> {
    pub id: u32,
    pub player: String,
    pub team: Option<String>,
    pub jersey_name: Option<String>,
    pub jersey_number: Option<String>,
    pub status: String,
    pub paid: bool,
    pub amount_paid: F,
    pub registered_at: Option<String>,
    pub paid_at: Option<String>,
    pub waiver_required: bool,
    pub waiver_status: Option<String>,
    pub waiver_legal_name_signature: Option<String>,
}

#[derive(Clone, Debug)]
pub struct ManagePlayerInfo {
    pub id: String,
    pub name: String,
}

#[derive(Clone, Debug)]
pub struct TournamentInvitationsResponse<F> {
    pub tournament: Tournament<F>,
    pub team_registration: InvitationTeamRegistration,
    pub current_team_size: u32,
    pub invitations: Vec<InvitationItem>,
    pub team_roster: Vec<RosterItem<F>>,
}

#[derive(Clone, Debug)]
pub struct InvitationTeamRegistration {
    pub id: u32,
    pub pseudonym: String,
    pub shortname: Option<String>,
}

#[derive(Clone, Debug)]
pub struct InvitationItem {
    pub registration: InvitationRegistration,
    pub player: InvitationPlayer,
}

#[derive(Clone, Debug)]
pub struct InvitationRegistration {
    pub id: u32,
    pub jersey_name: Option<String>,
    pub jersey_number: Option<String>,
}

#[derive(Clone, Debug)]
pub struct InvitationPlayer {
    pub id: String,
    pub name: String,
    pub profile_photo: Option<String>,
}

#[derive(Clone, Debug)]
pub struct RosterItem<F> {
    pub registration: RosterRegistration<F>,
    pub player: InvitationPlayer,
}

#[derive(Clone, Debug)]
pub struct RosterRegistration<F> {
    pub id: u32,
    pub jersey_name: Option<String>,
    pub jersey_number: Option<String>,
    pub status: String,
    pub paid: bool,
    pub amount_paid: F,
}

/// Canvas bracket payload returned by ``GET /tournaments/:url/bracket``.
#[derive(Clone, Debug, PartialEq)]
pub struct BracketResponse<F> {
    pub tournament: Tournament<F>,
    pub is_to: bool,
    pub team_options: Vec<TeamOption>,
    pub tags: Vec<TagSetupData>,
    pub matches: Vec<BracketMatchData<F>>,
    pub texts: Vec<BracketTextData<F>>,
    pub labeled_teams: Vec<BracketLabeledTeamData<F>>,
    pub images: Vec<BracketImageData<F>>,
}

#[derive(Clone, Debug, PartialEq)]
pub struct BracketTextData<F> {
    pub id: String,
    pub text: String,
    pub x_pos: F,
    pub y_pos: F,
    pub size: F,
}

#[derive(Clone, Debug, PartialEq)]
pub struct BracketLabeledTeamData<F> {
    pub id: String,
    /// Short caption (max 50). Shown alone until the team resolves.
    pub label: String,
    pub team: String,
    /// ``"LABEL"`` or ``"NET"``.
    pub kind: String,
    pub x_pos: F,
    pub y_pos: F,
    pub team_id: Option<String>,
    pub display_text: String,
    pub profile_photo: Option<String>,
    pub shortname: Option<String>,
    /// True when ``team`` has resolved to a concrete registered team.
    pub resolved: bool,
}

#[derive(Clone, Debug, PartialEq)]
pub struct BracketImageData<F> {
    pub id: String,
    pub image: String,
    pub x_pos: F,
    pub y_pos: F,
    pub width: F,
    pub height: F,
}

/// One playable match plus optional canvas placement.
#[derive(Clone, Debug, PartialEq)]
pub struct BracketMatchData<F> {
    pub uuid: String,
    pub name: String,
    pub team1: Option<String>,
    pub team2: Option<String>,
    pub team1_name: String,
    pub team2_name: String,
    pub team1_shortname: Option<String>,
    pub team2_shortname: Option<String>,
    pub team1_photo: Option<String>,
    pub team2_photo: Option<String>,
    pub team1_initial: Option<String>,
    pub team2_initial: Option<String>,
    pub status: String,
    pub match_winner: Option<String>,
    pub schedule_type: Option<String>,
    pub placement: Option<BracketPlacementData<F>>,
}

/// Layout + port mode for a match on the bracket canvas.
#[derive(Clone, Debug, PartialEq)]
pub struct BracketPlacementData<F> {
    pub x_pos: Option<F>,
    pub y_pos: Option<F>,
    pub width: F,
    pub height: F,
    /// ``"LABEL"`` or ``"NET"``.
    pub team1: String,
    /// ``"LABEL"`` or ``"NET"``.
    pub team2: String,
    /// When true, team2 is drawn above team1 (inputs swapped vertically).
    pub inputs_flipped: bool,
    pub placed: bool,
}

// Legacy image-bracket types (bracket-setup page)
#[derive(Clone, Debug)]
pub struct BracketItem {
    pub name: String,
    pub image: String,
    pub teams: Vec<BracketTeamEntry>,
}

#[derive(Clone, Debug)]
pub struct BracketTeamEntry {
    pub team_info: Option<BracketTeamInfo>,
    pub x: i32,
    pub y: i32,
    pub halign: String,
    pub valign: String,
    pub size: i32,
    pub is_reference: bool,
    pub is_tag: bool,
    pub match_name: Option<String>,
}

#[derive(Clone, Debug)]
pub struct BracketTeamInfo {
    pub id: Option<String>,
    pub pseudonym: Option<String>,
    pub shortname: Option<String>,
    pub profile_photo: Option<String>,
    pub display_text: String,
}

#[derive(Clone, Debug, PartialEq)]
pub struct ToEntry {
    pub id: i32,
    pub user_id: String,
    pub user_type: String,
    pub user_name: String,
    pub is_current_user: bool,
}

#[derive(Clone, Debug, PartialEq)]
pub struct TeamOption {
    pub id: String,
    pub pseudonym: Option<String>,
    pub shortname: Option<String>,
    pub profile_photo: Option<String>,
}

#[derive(Clone, Debug)]
pub struct PointData {
    pub uuid: String,
    pub set_number: Option<u32>,
    pub winner: Option<String>,
    pub rerolled: bool,
    pub stamp: Option<String>,
    pub end_stamp: Option<String>,
    pub stones_at_start: Option<u32>,
}

#[derive(Clone, Debug)]
pub struct TeamResultRow {
    pub id: String,
    pub pseudonym: String,
    pub shortname: Option<String>,
    pub profile_photo: Option<String>,
    pub matches_won: u32,
    pub matches_lost: u32,
    pub points_won: u32,
    pub points_lost: u32,
}

#[derive(Clone, Debug)]
pub struct ResultsResponse<F> {
    pub tournament: Tournament<F>,
    pub teams: Vec<TeamResultRow>,
}

#[derive(Clone, Debug)]
pub struct SetScore {
    pub set_number: u32,
    pub team1_points: u32,
    pub team2_points: u32,
}

#[derive(Clone, Debug)]
pub struct TeamMatchDetail {
    pub uuid: String,
    pub name: String,
    pub team1_name: String,
    pub team2_name: String,
    pub match_winner: Option<String>,
    /// Which side this team played: "TEAM1" or "TEAM2"
    pub your_side: Option<String>,
    pub sets: Vec<SetScore>,
    pub ribbon: bool,
    /// Tournament URL (event) for this match; present when matches span multiple events (e.g. league).
    pub event: Option<String>,
}

#[derive(Clone, Debug)]
pub struct TeamMatchesResponse {
    pub matches: Vec<TeamMatchDetail>,
}

#[derive(Clone, Debug)]
pub struct BracketTeamConfig {
    pub team: String,
    pub x: i32,
    pub y: i32,
    pub halign: Option<String>,
    pub valign: Option<String>,
    pub size: Option<u32>,
}

#[derive(Clone, Debug)]
pub struct BracketConfig {
    pub name: String,
    pub image: String,
    pub teams: Vec<BracketTeamConfig>,
}

#[derive(Clone, Debug)]
pub struct BracketSetupResponse<F> {
    pub tournament: Tournament<F>,
    pub brackets: Vec<BracketConfig>,
}

#[derive(Clone, Debug, PartialEq)]
pub struct MatchDetailData {
    pub uuid: String,
    pub name: String,
    pub field: Option<String>,
    pub team1: Option<String>,
    pub team2: Option<String>,
    pub team1_name: String,
    pub team2_name: String,
    pub team1_shortname: Option<String>,
    pub team2_shortname: Option<String>,
    pub team1_photo: Option<String>,
    pub team2_photo: Option<String>,
    pub team1_initial: Option<String>,
    pub team2_initial: Option<String>,
    pub status: String,
    pub nominal_start_time: Option<String>,
    pub confirmed_start_time: Option<String>,
    pub completed_time: Option<String>,
    pub set_type: Option<String>,
    pub stones_per_set: Option<u32>,
    pub stones_remaining: Option<u32>,
    pub match_winner: Option<String>,
    pub schedule_type: Option<String>,
    pub nominal_length: Option<u32>,
    pub previous_match: Option<String>,
    pub refs: Option<String>,
    pub refs_initial: Option<String>,
    /// Refs by display name (pseudonym), like team1_name/team2_name.
    pub refs_display: Option<String>,
    pub ribbon: bool,
    pub skip_condition: Option<String>,
    pub nsets: Option<u32>,
    pub initial_notes: Option<String>,
    pub final_notes: Option<String>,
}

/// Per-point in-video start time. Includes point_uuid so cameras can have different point sets.
#[derive(Clone, Debug)]
pub struct PointTimestamp<F> {
    /// Point UUID; None for legacy data (array of numbers).
    pub point_uuid: Option<String>,
    pub in_video_start: F,
}

#[derive(Clone, Debug)]
pub struct CameraData<F> {
    pub index: u32,
    pub url: Option<String>,
    pub stream_start_time: Option<String>,
    pub camera_type: String,
    pub video_path: Option<String>,
    pub camera_id: Option<String>,
    pub session_id: Option<String>,
    pub status: Option<String>,
    pub source_type: Option<String>,
    pub time_world: Option<Vec<String>>,
    pub time_video: Option<Vec<F>>,
    pub point_timestamps: Option<Vec<PointTimestamp<F>>>,
}

#[derive(Clone, Debug, PartialEq)]
pub struct FieldOption {
    pub id: u32,
    pub name: String,
}

#[derive(Clone, Debug, PartialEq)]
pub struct UserUploadPlanningField {
    pub id: u32,
    pub name: String,
}

#[derive(Clone, Debug, PartialEq)]
pub struct UserUploadPlanningPoint {
    pub uuid: String,
    pub index: u32,
    pub stamp: Option<String>,
    pub end_stamp: Option<String>,
}

#[derive(Clone, Debug, PartialEq)]
pub struct UserUploadPlanningMatch {
    pub uuid: String,
    pub name: String,
    pub field_name: String,
    pub points: Vec<UserUploadPlanningPoint>,
}

#[derive(Clone, Debug, PartialEq)]
pub struct UserUploadPlanningResponse {
    pub field: UserUploadPlanningField,
    pub matches: Vec<UserUploadPlanningMatch>,
}

#[derive(Clone, Debug)]
pub struct UserUploadedCameraRow {
    pub uuid: String,
    pub match_uuid: String,
    pub match_name: String,
    pub field_name: String,
    pub camera_name: String,
    pub status: String,
    pub user: Option<String>,
    pub world_start_timestamp: Option<String>,
    pub link: Option<String>,
    pub file: Option<String>,
    pub uploaded_by_user_id: Option<String>,
    pub uploaded_by_user_type: Option<String>,
    pub manifest_only: Option<bool>,
    pub error: Option<String>,
}

#[derive(Clone, Debug)]
pub struct UserUploadedCamerasResponse {
    pub cameras: Vec<UserUploadedCameraRow>,
}

#[derive(Clone, Debug, PartialEq)]
pub struct PenaltyType {
    pub id: i32,
    pub name: String,
    pub color: String,
    /// Backend may send null when not set.
    pub desc: Option<String>,
}

#[derive(Clone, Debug)]
pub struct PlayerPenaltyHistoryItem {
    pub penalty_type_name: String,
    pub match_name: String,
    pub point_label: String,
    pub date: String,
    pub is_current_match: bool,
    pub is_current_point: bool,
    pub note_uuid: Option<String>,
}

#[derive(Clone, Debug)]
pub struct PlayerPenaltyHistoryResponse {
    pub penalties: Vec<PlayerPenaltyHistoryItem>,
}

#[derive(Clone, Debug)]
pub struct MatchNoteData {
    pub text: String,
    pub target: String,
    pub player_id: Option<String>,
    pub player_name: Option<String>,
    pub player_display: Option<String>,
    pub team_id: Option<String>,
    pub created_at: Option<String>,
    pub penalty_type_id: Option<i32>,
}

#[derive(Clone, Debug)]
pub struct MatchPlayerForNotes {
    pub player_id: String,
    pub name: String,
    pub display: String,
    pub profile_photo: Option<String>,
    pub team_side: Option<String>,
    pub in_this_match: bool,
    pub penalty_counts: HashMap<String, i32>,
}

#[derive(Clone, Debug)]
pub struct MatchDetailResponse<F> {
    pub match_data: MatchDetailData,
    pub points: Vec<PointData>,
    pub available_cameras: Vec<CameraData<F>>,
    pub camera_url: Option<String>,
    pub match_notes: Vec<MatchNoteData>,
    pub point_notes_map: HashMap<String, Vec<MatchNoteData>>,
    pub is_head_ref: bool,
    pub can_retry_finalization: bool,
    pub can_start: bool,
    pub block_reasons: Vec<String>,
    pub why_sections: Option<WhySections>,
    pub conflicting_match: Option<ConflictingMatchInfo>,
    pub match_players: Vec<MatchPlayerForNotes>,
    pub penalty_types: Vec<PenaltyType>,
}

#[derive(Clone, Debug, Default)]
pub struct WhySections {
    pub match_ready: MatchReadySection,
    pub conflicts: Vec<String>,
    pub ref_permissions: RefPermissionsSection,
}

#[derive(Clone, Debug, Default)]
pub struct MatchReadySection {
    pub status: String,
    pub reasons: Vec<String>,
    pub blocks_start: bool,
}

#[derive(Clone, Debug, PartialEq)]
pub struct ConflictingMatchInfo {
    pub uuid: String,
    pub name: String,
    pub team1_name: String,
    pub team2_name: String,
    pub team1_shortname: Option<String>,
    pub team2_shortname: Option<String>,
}

#[derive(Clone, Debug)]
pub struct ForceStartMatchRequest {
    pub team1: String,
    pub team2: String,
    pub refs: Vec<String>,
    pub conflicting_match_action: Option<String>,
    pub conflicting_match_winner: Option<String>,
}

#[derive(Clone, Debug, Default)]
pub struct RefPermissionsSection {
    pub who_allowed: Vec<String>,
    pub current_user: Vec<String>,
    pub is_ok: bool,
}

#[derive(Clone, Debug)]
pub struct StartMatchResponse<F> {
    pub tournament: Tournament<F>,
    pub match_info: StartMatchInfo,
    pub team1_players: Vec<StartMatchPlayer>,
    pub team2_players: Vec<StartMatchPlayer>,
    pub all_players: Vec<StartMatchPlayer>,
}

#[derive(Clone, Debug)]
pub struct StartMatchInfo {
    pub uuid: String,
    pub name: String,
    pub field: Option<String>,
    pub set_type: Option<String>,
    pub refs: Option<String>,
    pub team1_name: String,
    pub team2_name: String,
}

#[derive(Clone, Debug, PartialEq)]
pub struct StartMatchPlayer {
    pub id: String,
    pub name: String,
    pub jersey_name: Option<String>,
    pub jersey_number: Option<String>,
    pub team: Option<String>,
    pub paid: bool,
    pub injuries: Vec<String>,
}

#[derive(Clone, Debug)]
pub struct StartMatchRequest {
    pub match_id: String,
    pub team1_players: Vec<String>,
    pub team2_players: Vec<String>,
    pub match_notes: String,
    pub stones_per_set: Option<u32>,
}

#[derive(Clone, Debug)]
pub struct StartMatchPostResponse {
    pub match_id: String,
}

#[derive(Clone, Debug)]
pub struct FinalizeMatchResponse<F> {
    pub tournament: Tournament<F>,
    pub match_info: FinalizeMatchInfo,
    pub points: Vec<FinalizePoint>,
    pub point_notes_map: HashMap<String, Vec<FinalizeNote>>,
    pub stones_elapsed_map: HashMap<String, u32>,
    pub team1_score: u32,
    pub team2_score: u32,
}

#[derive(Clone, Debug)]
pub struct FinalizeMatchInfo {
    pub uuid: String,
    pub name: String,
    pub team1_name: String,
    pub team2_name: String,
}

#[derive(Clone, Debug)]
pub struct FinalizePoint {
    pub uuid: String,
    pub set_number: Option<u32>,
    pub winner: Option<String>,
    pub rerolled: bool,
}

#[derive(Clone, Debug)]
pub struct FinalizeNote {
    pub text: Option<String>,
    pub target: Option<String>,
    pub player_id: Option<String>,
    pub player_name: Option<String>,
    pub player_display: Option<String>,
    pub team_id: Option<String>,
    pub created_at: Option<String>,
}

#[derive(Clone, Debug)]
pub struct FinalizeMatchRequest {
    pub match_id: String,
    pub match_winner: String,
    pub final_notes: String,
    pub team1_signature: Option<String>,
    pub team2_signature: Option<String>,
}

#[derive(Clone, Debug)]
pub struct FinalizeMatchPostResponse {
    pub ok: bool,
}

#[derive(Clone, Debug)]
pub struct PlayerListItem {
    pub id: String,
    pub name: String,
    pub profile_photo: Option<String>,
    pub location: Option<String>,
}

#[derive(Clone, Debug)]
pub struct PlayersListResponse {
    pub players: Vec<PlayerListItem>,
    pub page: u32,
    pub total_pages: u32,
    pub total: u32,
}

#[derive(Clone, Debug)]
pub struct PlayerProfileData {
    pub id: String,
    pub name: String,
    pub profile_photo: Option<String>,
    pub phone: Option<String>,
    pub location: Option<String>,
    pub bio: Option<String>,
}

#[derive(Clone, Debug)]
pub struct PlayerInjury {
    pub id: u32,
    pub message: String,
    pub stamp: Option<String>,
    pub active: bool,
    pub show: bool,
}

#[derive(Clone, Debug)]
pub struct PlayerProfileResponse<F> {
    pub player: PlayerProfileData,
    pub registrations: Vec<PlayerRegItem<F>>,
    pub injuries: Vec<PlayerInjury>,
    pub player_notes: Vec<PlayerNoteItem>,
}

#[derive(Clone, Debug)]
pub struct PlayerRegItem<F> {
    pub event: String,
    pub team: Option<String>,
    pub team_pseudonym: Option<String>,
    pub team_shortname: Option<String>,
    pub status: String,
    pub jersey_name: Option<String>,
    pub jersey_number: Option<String>,
    pub paid: bool,
    pub amount_paid: F,
    pub waiver_required: bool,
    pub waiver_status: Option<String>,
}

#[derive(Clone, Debug)]
pub struct PlayerNoteItem {
    pub created_at: Option<String>,
    pub text: String,
    pub point_index: String,
    pub match_info: Option<NoteMatchInfo>,
    pub penalty_type_name: Option<String>,
    pub penalty_type_color: Option<String>,
    pub penalty_type_desc: Option<String>,
}

#[derive(Clone, Debug)]
pub struct NoteMatchInfo {
    pub event: String,
    pub uuid: String,
    pub name: String,
}

#[derive(Clone, Debug)]
pub struct TeamListItem {
    pub id: String,
    pub name: String,
    pub profile_photo: Option<String>,
    pub location: Option<String>,
}

#[derive(Clone, Debug)]
pub struct TeamsListResponse {
    pub teams: Vec<TeamListItem>,
}

#[derive(Clone, Debug)]
pub struct TeamProfileData {
    pub id: String,
    pub name: String,
    pub profile_photo: Option<String>,
    pub location: Option<String>,
    pub email: Option<String>,
    pub website: Option<String>,
    pub about: Option<String>,
}

#[derive(Clone, Debug)]
pub struct TeamProfileResponse<F> {
    pub team: TeamProfileData,
    pub registrations: Vec<TeamRegItem<F>>,
    pub team_notes: Vec<TeamNoteItem>,
    pub tournament_players: HashMap<String, Vec<TournamentPlayerItem>>,
}

#[derive(Clone, Debug, PartialEq)]
pub struct TeamRegItem<F> {
    pub event: String,
    pub pseudonym: Option<String>,
    pub shortname: Option<String>,
    pub status: String,
    pub paid: bool,
    pub amount_paid: F,
    pub start_date: Option<String>,
}

#[derive(Clone, Debug)]
pub struct TeamNoteItem {
    pub created_at: Option<String>,
    pub text: String,
    pub point_index: String,
    pub match_info: NoteMatchInfo,
}

#[derive(Clone, Debug)]
pub struct TournamentPlayerItem {
    pub registration: TournamentPlayerRegistration,
    pub player: Option<TournamentPlayerInfo>,
}

#[derive(Clone, Debug)]
pub struct TournamentPlayerRegistration {
    pub player: String,
    pub jersey_name: Option<String>,
    pub jersey_number: Option<String>,
}

#[derive(Clone, Debug)]
pub struct TournamentPlayerInfo {
    pub id: String,
    pub name: String,
    pub profile_photo: Option<String>,
}

#[derive(Clone, Debug)]
pub struct StoneFile {
    pub filename: String,
    pub filename_encoded: String,
    pub display_name: String,
    pub sort_order: u32,
}

#[derive(Clone, Debug)]
pub struct StonesResponse {
    pub stones: Vec<StoneFile>,
}

#[derive(Clone, Debug)]
pub struct ServerTimeResponse<F> {
    pub server_time: F,
    pub timestamp: String,
}

#[derive(Clone, Debug)]
pub struct ScoreboardStateResponse {
    pub has_active_match: bool,
    pub match_id: Option<String>,
    pub team1_name: Option<String>,
    pub team2_name: Option<String>,
    pub team1_photo: Option<String>,
    pub team2_photo: Option<String>,
    pub scores_by_set:
        Option<HashMap<String, HashMap<String, u32>>>,
    pub sets: Option<Vec<u32>>,
    pub stones_info: Option<StonesInfo>,
    pub points_for_stones: Option<Vec<ScoreboardPointForStones>>,
    pub prev_match: Option<PrevNextMatch>,
    pub next_match: Option<PrevNextMatch>,
    pub timestamp: String,
}

#[derive(Clone, Debug)]
pub struct StonesInfo {
    pub stones_per_set: u32,
    pub stones_remaining: Option<u32>,
}

/// Point data for live stones computation on scoreboard (STONES matches).
#[derive(Clone, Debug)]
pub struct ScoreboardPointForStones {
    pub stamp: Option<String>,
    pub end_stamp: Option<String>,
    pub stones_at_start: Option<u32>,
}

#[derive(Clone, Debug)]
pub struct PrevNextMatch {
    pub team1_name: String,
    pub team2_name: String,
    pub team1_photo: Option<String>,
    pub team2_photo: Option<String>,
    pub winner: Option<String>,
}

#[derive(Clone, Debug)]
pub struct TagListItem {
    pub id: u32,
    pub name: String,
}

#[derive(Clone, Debug)]
pub struct TagsListResponse {
    pub tags: Vec<TagListItem>,
}

#[derive(Clone, Debug)]
pub struct MarkdownPageResponse {
    pub title: String,
    pub html: String,
}

#[derive(Clone, Debug)]
pub struct RenderMarkdownResponse {
    pub html: String,
    pub css: Option<String>,
}

#[derive(Clone, Debug)]
pub struct GoogleChooseAccountTypeResponse {
    pub email: String,
}

#[derive(Clone, Debug)]
pub struct GoogleCompleteProfileResponse {
    pub email: String,
    pub user_type: String,
    pub suggested_name: String,
}

#[derive(Clone, Debug)]
pub struct GoogleChooseAccountTypeRequest {
    pub user_type: String,
}

#[derive(Clone, Debug)]
pub struct GoogleCompleteProfileRequest {
    pub username: String,
    pub display_name: String,
}

#[derive(Clone, Debug)]
pub struct UpdateFieldRequest {
    pub name: String,
    pub camera_urls: Vec<String>,
    /// Per-camera stream start times (ISO UTC). None = no change; Some(None) = clear; Some(Some(s)) = set.
    pub stream_start_times: Option<Vec<Option<String>>>,
}

#[derive(Clone, Debug)]
pub struct UpdateMatchRequest {
    // `name` is intentionally absent: match names are immutable after creation.
    pub field: Option<String>,
    pub schedule_type: Option<String>,
    pub length: Option<u32>,
    pub start_time: Option<String>,
    pub previous_match_id: Option<String>,
    pub refs: Option<Vec<String>>,
    pub team1: Option<String>,
    pub team2: Option<String>,
    pub set_type: Option<String>,
    pub nsets: Option<u32>,
    pub stones_per_set: Option<u32>,
    pub ribbon: Option<bool>,
    pub skip_condition: Option<String>,
}

#[derive(Clone, Debug)]
pub struct UpdatePlayerProfileRequest {
    pub name: Option<String>,
    pub phone: Option<String>,
    pub location: Option<String>,
    pub bio: Option<String>,
}

#[derive(Clone, Debug)]
pub struct UpdateTeamProfileRequest {
    pub name: Option<String>,
    pub location: Option<String>,
    pub email: Option<String>,
    pub website: Option<String>,
    pub about: Option<String>,
}

#[derive(Clone, Debug)]
pub struct PlayerRegistrationData {
    pub id: u32,
    pub jersey_name: Option<String>,
    pub jersey_number: Option<String>,
    pub team: Option<String>,
    pub status: String,
}

#[derive(Clone, Debug)]
pub struct MyPlayerRegistrationResponse {
    pub registration: PlayerRegistrationData,
    pub current_team: Option<TeamOption>,
    pub waiver_required: bool,
    pub waiver_signature_valid: bool,
    pub waiver_filepath: Option<String>,
    pub waiver_sha256: Option<String>,
    pub waiver_legal_name_signature: Option<String>,
}

#[derive(Clone, Debug)]
pub struct UpdatePlayerRegistrationRequest {
    pub jersey_name: Option<String>,
    pub jersey_number: Option<String>,
    pub team: Option<String>,
    pub waiver_legal_name_signature: Option<String>,
}

#[derive(Clone, Debug)]
pub struct TeamRegistrationData {
    pub id: u32,
    pub pseudonym: Option<String>,
    pub shortname: Option<String>,
    pub status: String,
}

#[derive(Clone, Debug)]
pub struct MyTeamRegistrationResponse {
    pub registration: TeamRegistrationData,
}

#[derive(Clone, Debug)]
pub struct UpdateTeamRegistrationRequest {
    pub pseudonym: Option<String>,
    pub shortname: Option<String>,
}

#[derive(Clone, Debug, PartialEq)]
pub struct ScheduleSetupResponse<F> {
    pub tournament: Tournament<F>,
    pub matches: Vec<MatchSetupData>,
    pub fields: Vec<FieldSetupData>,
    pub tags: Vec<TagSetupData>,
    pub team_options: Vec<TeamOption>,
    pub is_to: bool,
}

#[derive(Clone, Debug, PartialEq)]
pub struct MatchSetupData {
    pub uuid: String,
    pub name: String,
    pub field: Option<String>,
    pub team1: Option<String>,
    pub team2: Option<String>,
    pub team1_initial: Option<String>,
    pub team2_initial: Option<String>,
    pub status: String,
    pub scheduled_start_time: Option<String>,
    pub nominal_start_time: Option<String>,
    pub confirmed_start_time: Option<String>,
    pub completed_time: Option<String>,
    pub schedule_type: Option<String>,
    pub set_type: Option<String>,
    pub nominal_length: Option<u32>,
    pub previous_match: Option<String>,
    pub next_match: Option<String>,
    pub refs: Option<String>,
    pub refs_initial: Option<String>,
    pub ribbon: bool,
    pub skip_condition: Option<String>,
    pub nsets: Option<u32>,
    pub stones_per_set: Option<u32>,
    pub stones_remaining: Option<u32>,
    pub match_winner: Option<String>,
}

#[derive(Clone, Debug, PartialEq)]
pub struct FieldSetupData {
    pub id: u32,
    pub name: String,
    pub camera_urls: Vec<String>,
}

#[derive(Clone, Debug, PartialEq)]
pub struct TagSetupData {
    pub id: u32,
    pub name: String,
    pub team: Option<String>,
}

#[derive(Clone, Debug)]
pub struct CreateMatchRequest {
    pub name: String,
    pub field: Option<String>,
    pub length: Option<u32>,
    pub schedule_type: Option<String>,
    pub start_time: Option<String>,
    pub previous_match_id: Option<String>,
    pub team1: Option<String>,
    pub team2: Option<String>,
    pub refs: Option<Vec<String>>,
    pub set_type: Option<String>,
    pub nsets: Option<u32>,
    pub stones_per_set: Option<u32>,
    pub ribbon: Option<bool>,
    pub skip_condition: Option<String>,
}

#[derive(Clone, Debug)]
pub struct CreateMatchResponse {
    pub success: bool,
    pub uuid: String,
}

#[derive(Clone, Debug, PartialEq)]
pub struct ScheduleWarning {
    /// One of "unknown_team", "unknown_match_ref", "cycle", "double_booked".
    pub kind: String,
    pub message: String,
    pub matches: Vec<String>,
}

#[derive(Clone, Debug)]
pub struct ScheduleWarningsResponse {
    pub success: bool,
    pub warnings: Vec<ScheduleWarning>,
    pub error: Option<String>,
}

#[derive(Clone, Debug)]
pub struct ValidateDslResponse {
    pub valid: bool,
    pub simplified: Option<String>,
    pub error: Option<String>,
    /// Possible types of the simplified result, e.g. ["BOOL"], ["TEAM"], ["UNKNOWN"].
    pub result_type: Vec<String>,
}

#[derive(Clone, Debug)]
pub struct CreateFieldRequest {
    pub name: String,
    pub camera_urls: Vec<String>,
}

#[derive(Clone, Debug)]
pub struct CreateFieldResponse {
    pub success: bool,
    pub id: u32,
}

#[derive(Clone, Debug)]
pub struct CreateTagRequest {
    pub name: String,
}

#[derive(Clone, Debug)]
pub struct CreateTagResponse {
    pub success: bool,
    pub id: u32,
}

#[derive(Clone, Debug)]
pub struct PushBackRequest {
    pub minutes: i32,
}

#[derive(Clone, Debug)]
pub struct UpdateTagsRequest {
    pub tag_id: u32,
    pub team_id: String,
}

#[derive(Clone, Debug)]
pub struct ExportScheduleResponse {
    pub toml: String,
}

#[derive(Clone, Debug)]
pub struct ImportScheduleRequest {
    pub toml: String,
}

// Record page API
#[derive(Clone, Debug)]
pub struct RecordMatchStatusResponse {
    pub hasActiveMatch: bool,
    pub match_id: Option<String>,
    pub match_name: Option<String>,
    pub start_time: Option<String>,
    pub status: Option<String>,
    pub points: Option<Vec<RecordPointData>>,
    pub reason: Option<String>,
    /// True when a TO has requested preview for this field; record page should send preview frames.
    pub preview_requested: bool,
}

#[derive(Clone, Debug)]
pub struct RecordPointData {
    pub uuid: String,
    pub stamp: Option<String>,
    pub end_stamp: Option<String>,
}

#[derive(Clone, Debug)]
pub struct RegisterPlayerAsToResponse {
    pub success: bool,
    pub message: Option<String>,
    pub error: Option<String>,
    pub player_id: Option<String>,
    pub player_name: Option<String>,
    pub team: Option<String>,
    pub jersey_number: Option<String>,
    pub jersey_name: Option<String>,
}

#[derive(Clone, Debug)]
pub struct RegisterTeamAsToResponse {
    pub success: bool,
    pub message: Option<String>,
    pub error: Option<String>,
    pub team_id: Option<String>,
    pub team_name: Option<String>,
    pub pseudonym: Option<String>,
    pub shortname: Option<String>,
}

#[derive(Clone, Debug, PartialEq)]
pub struct SideCompSummary {
    pub id: i32,
    pub name: String,
    pub type_: String,
    pub registrant_count: i64,
    pub registration_open: bool,
    pub created_at: Option<String>,
}

#[derive(Clone, Debug, PartialEq)]
pub struct SideCompRegistrant {
    pub player_id: String,
    pub player_name: String,
    pub entry_number: i32,
    pub registered_at: Option<String>,
    pub registered_by_to: bool,
}

#[derive(Clone, Debug, PartialEq)]
pub struct SideCompDetail {
    pub id: i32,
    pub event: String,
    pub name: String,
    pub type_: String,
    pub description: Option<String>,
    pub registration_open: bool,
    pub created_at: Option<String>,
    pub registrants: Vec<SideCompRegistrant>,
    pub viewer_is_to: bool,
    pub viewer_can_register: bool,
    pub viewer_is_registered_in_comp: bool,
}

#[derive(Clone, Debug, PartialEq)]
pub struct EligiblePlayer {
    pub player_id: String,
    pub player_name: String,
    pub team_id: Option<String>,
    pub team_pseudonym: Option<String>,
    pub team_shortname: Option<String>,
    pub jersey_name: Option<String>,
    pub sidecomp_registered: bool,
    pub entry_number: Option<i32>,
}

#[derive(Clone, Debug, PartialEq)]
pub struct SideCompRegisterPlayerResponse {
    pub player_id: String,
    pub player_name: String,
    pub entry_number: i32,
    pub registered_at: Option<String>,
}

/// The label that a bracket port starts with.
pub fn default_port_label() -> (r: String)
    ensures
        r@ == "LABEL"@,
{
    "LABEL".to_owned()
}

impl<F> BracketPlacementData<F> {
    /// Placed on the canvas: marked so, or with both coordinates known.
    pub fn is_placed(&self) -> (r: bool)
        ensures
            r == (self.placed || (self.x_pos is Some && self.y_pos is Some)),
    {
        self.placed || (self.x_pos.is_some() && self.y_pos.is_some())
    }

    /// The first port is connected to a net.
    pub fn is_net_team1(&self) -> (r: bool)
        ensures
            r == text::same_ignoring_ascii_case(self.team1@, "NET"@),
    {
        eq_ignore_ascii_case(self.team1.as_str(), "NET")
    }

    /// The second port is connected to a net.
    pub fn is_net_team2(&self) -> (r: bool)
        ensures
            r == text::same_ignoring_ascii_case(self.team2@, "NET"@),
    {
        eq_ignore_ascii_case(self.team2.as_str(), "NET")
    }
}

/// One entry of a camera's list of point times, as it was read: a bare number from older data, an
/// entry with its point, or anything else.
#[derive(Clone, Debug)]
pub enum RawPointTimestamp<F> {
    Seconds(F),
    Entry(PointTimestamp<F>),
    Other,
}

/// What an entry of a list of point times becomes.
pub open spec fn point_timestamp_of<F>(raw: RawPointTimestamp<F>) -> Option<PointTimestamp<F>> {
    match raw {
        RawPointTimestamp::Seconds(t) => Some(PointTimestamp { point_uuid: None, in_video_start: t }),
        RawPointTimestamp::Entry(p) => Some(p),
        RawPointTimestamp::Other => None,
    }
}

/// The entries that are point times, in order.
pub open spec fn point_timestamps_of<F>(raw: Seq<RawPointTimestamp<F>>) -> Seq<PointTimestamp<F>>
    decreases raw.len(),
{
    if raw.len() == 0 {
        Seq::empty()
    } else {
        let before = point_timestamps_of(raw.drop_last());
        match point_timestamp_of(raw.last()) {
            Some(p) => before.push(p),
            None => before,
        }
    }
}

/// The point times of a camera from a list as it was read. A number has no point; what is neither a
/// number nor an entry is left out; what is no list at all gives nothing.
pub fn deserialize_point_timestamps<F>(raw: Option<Vec<RawPointTimestamp<F>>>) -> (r: Option<
    Vec<PointTimestamp<F>>,
>)
    ensures
        r is Some <==> raw is Some,
        raw is Some ==> r->0@ == point_timestamps_of(raw->0@),
{
    match raw {
        None => None,
        Some(list) => {
            let ghost all = list@;
            let mut list = list;
            let mut back: Vec<PointTimestamp<F>> = Vec::new();
            let ghost mut rest: Seq<PointTimestamp<F>> = Seq::empty();
            assert(all.take(all.len() as int) =~= all);
            assert(point_timestamps_of(all) + rest =~= point_timestamps_of(all));
            while list.len() > 0
                invariant
                    list@ == all.take(list@.len() as int),
                    list@.len() <= all.len(),
                    point_timestamps_of(all) == point_timestamps_of(list@) + rest,
                    back@ == rest.reverse(),
                decreases list@.len(),
            {
                let ghost was = list@;
                let item = list.pop();
                assert(list@ =~= was.drop_last());
                match item {
                    Some(RawPointTimestamp::Seconds(t)) => {
                        let p = PointTimestamp { point_uuid: None, in_video_start: t };
                        back.push(p);
                        proof {
                            let grown = seq![p] + rest;
                            assert(point_timestamps_of(list@).push(p) + rest =~= point_timestamps_of(
                                list@,
                            ) + grown);
                            assert(rest.reverse().push(p) =~= grown.reverse());
                            rest = grown;
                        }
                    },
                    Some(RawPointTimestamp::Entry(p)) => {
                        back.push(p);
                        proof {
                            let grown = seq![p] + rest;
                            assert(point_timestamps_of(list@).push(p) + rest =~= point_timestamps_of(
                                list@,
                            ) + grown);
                            assert(rest.reverse().push(p) =~= grown.reverse());
                            rest = grown;
                        }
                    },
                    _ => {},
                }
            }
            assert(point_timestamps_of(list@) =~= Seq::<PointTimestamp<F>>::empty());
            assert(point_timestamps_of(all) =~= rest);
            let mut out: Vec<PointTimestamp<F>> = Vec::new();
            while back.len() > 0
                invariant
                    out@.len() + back@.len() == rest.len(),
                    back@ == rest.reverse().take(back@.len() as int),
                    out@ == rest.take(out@.len() as int),
                decreases back@.len(),
            {
                let ghost was = out@;
                match back.pop() {
                    Some(p) => {
                        assert(p == rest[was.len() as int]);
                        out.push(p);
                        assert(out@ =~= rest.take(out@.len() as int));
                    },
                    None => {},
                }
            }
            assert(out@ =~= rest);
            Some(out)
        },
    }
}

} // verus!
