//! Registration tables: the services this process exposes ("exported")
//! and those it expects the peer to expose ("imported"), each keyed by the
//! FNV-1a hash of the service's name. Built once, read only.
//!
//! The response service is both imported and exported.

use vstd::prelude::*;

verus! {

/// Services this process exposes, each with the id the peer addresses it by. The peer asks for them by hash during the handshake and is answered with these ids.
#[derive(Debug, Clone, Copy, PartialEq, Eq, Structural)]
pub enum ExportedServiceID {
    ConnectionService,
    AccountService,
    AchievementsService,
    AuthenticationServer,
    ChallengeService,
    ChannelInvitationService,
    Channel,
    ChannelOwner,
    ExchangeService,
    FriendsService,
    GameMaster,
    GameUtilities,
    NotificationService,
    PresenceService,
    ReportService,
    Resources,
    SearchService,
    UserManagerService,
    ResponseService,
}

impl ExportedServiceID {
    /// The id a service is bound to on this connection.
    pub open spec fn spec_id(self) -> u32 {
        match self {
            ExportedServiceID::ConnectionService => 0,
            ExportedServiceID::AccountService => 1,
            ExportedServiceID::AchievementsService => 2,
            ExportedServiceID::AuthenticationServer => 3,
            ExportedServiceID::ChallengeService => 4,
            ExportedServiceID::ChannelInvitationService => 5,
            ExportedServiceID::Channel => 6,
            ExportedServiceID::ChannelOwner => 7,
            ExportedServiceID::ExchangeService => 8,
            ExportedServiceID::FriendsService => 9,
            ExportedServiceID::GameMaster => 10,
            ExportedServiceID::GameUtilities => 11,
            ExportedServiceID::NotificationService => 12,
            ExportedServiceID::PresenceService => 13,
            ExportedServiceID::ReportService => 14,
            ExportedServiceID::Resources => 15,
            ExportedServiceID::SearchService => 16,
            ExportedServiceID::UserManagerService => 17,
            ExportedServiceID::ResponseService => 254,
        }
    }

    /// The name hash of the service.
    pub open spec fn spec_hash(self) -> u32 {
        match self {
            ExportedServiceID::ConnectionService => 1698982289,
            ExportedServiceID::AccountService => 1658456209,
            ExportedServiceID::AchievementsService => 1128824125,
            ExportedServiceID::AuthenticationServer => 233634817,
            ExportedServiceID::ChallengeService => 3686756121,
            ExportedServiceID::ChannelInvitationService => 2198078984,
            ExportedServiceID::Channel => 3073563442,
            ExportedServiceID::ChannelOwner => 101490829,
            ExportedServiceID::ExchangeService => 3612349579,
            ExportedServiceID::FriendsService => 2749215165,
            ExportedServiceID::GameMaster => 2165092757,
            ExportedServiceID::GameUtilities => 1069623117,
            ExportedServiceID::NotificationService => 213793859,
            ExportedServiceID::PresenceService => 4194801407,
            ExportedServiceID::ReportService => 2091868617,
            ExportedServiceID::Resources => 3971904954,
            ExportedServiceID::SearchService => 170173073,
            ExportedServiceID::UserManagerService => 1041835658,
            ExportedServiceID::ResponseService => 3625566374,
        }
    }

    /// The service with name hash `hash`, if the table holds one.
    pub open spec fn spec_from_hash(hash: u32) -> Option<Self> {
        match hash {
            1698982289 => Some(ExportedServiceID::ConnectionService),
            1658456209 => Some(ExportedServiceID::AccountService),
            1128824125 => Some(ExportedServiceID::AchievementsService),
            233634817 => Some(ExportedServiceID::AuthenticationServer),
            3686756121 => Some(ExportedServiceID::ChallengeService),
            2198078984 => Some(ExportedServiceID::ChannelInvitationService),
            3073563442 => Some(ExportedServiceID::Channel),
            101490829 => Some(ExportedServiceID::ChannelOwner),
            3612349579 => Some(ExportedServiceID::ExchangeService),
            2749215165 => Some(ExportedServiceID::FriendsService),
            2165092757 => Some(ExportedServiceID::GameMaster),
            1069623117 => Some(ExportedServiceID::GameUtilities),
            213793859 => Some(ExportedServiceID::NotificationService),
            4194801407 => Some(ExportedServiceID::PresenceService),
            2091868617 => Some(ExportedServiceID::ReportService),
            3971904954 => Some(ExportedServiceID::Resources),
            170173073 => Some(ExportedServiceID::SearchService),
            1041835658 => Some(ExportedServiceID::UserManagerService),
            3625566374 => Some(ExportedServiceID::ResponseService),
            _ => None,
        }
    }

    /// The id a service is bound to.
    pub fn id(self) -> (r: u32)
        ensures
            r == self.spec_id(),
    {
        match self {
            ExportedServiceID::ConnectionService => 0,
            ExportedServiceID::AccountService => 1,
            ExportedServiceID::AchievementsService => 2,
            ExportedServiceID::AuthenticationServer => 3,
            ExportedServiceID::ChallengeService => 4,
            ExportedServiceID::ChannelInvitationService => 5,
            ExportedServiceID::Channel => 6,
            ExportedServiceID::ChannelOwner => 7,
            ExportedServiceID::ExchangeService => 8,
            ExportedServiceID::FriendsService => 9,
            ExportedServiceID::GameMaster => 10,
            ExportedServiceID::GameUtilities => 11,
            ExportedServiceID::NotificationService => 12,
            ExportedServiceID::PresenceService => 13,
            ExportedServiceID::ReportService => 14,
            ExportedServiceID::Resources => 15,
            ExportedServiceID::SearchService => 16,
            ExportedServiceID::UserManagerService => 17,
            ExportedServiceID::ResponseService => 254,
        }
    }

    /// Looks the service up by its name hash.
    pub fn from_hash(hash: u32) -> (r: Option<Self>)
        ensures
            r == Self::spec_from_hash(hash),
            r matches Some(s) ==> s.spec_hash() == hash,
    {
        match hash {
            1698982289 => Some(ExportedServiceID::ConnectionService),
            1658456209 => Some(ExportedServiceID::AccountService),
            1128824125 => Some(ExportedServiceID::AchievementsService),
            233634817 => Some(ExportedServiceID::AuthenticationServer),
            3686756121 => Some(ExportedServiceID::ChallengeService),
            2198078984 => Some(ExportedServiceID::ChannelInvitationService),
            3073563442 => Some(ExportedServiceID::Channel),
            101490829 => Some(ExportedServiceID::ChannelOwner),
            3612349579 => Some(ExportedServiceID::ExchangeService),
            2749215165 => Some(ExportedServiceID::FriendsService),
            2165092757 => Some(ExportedServiceID::GameMaster),
            1069623117 => Some(ExportedServiceID::GameUtilities),
            213793859 => Some(ExportedServiceID::NotificationService),
            4194801407 => Some(ExportedServiceID::PresenceService),
            2091868617 => Some(ExportedServiceID::ReportService),
            3971904954 => Some(ExportedServiceID::Resources),
            170173073 => Some(ExportedServiceID::SearchService),
            1041835658 => Some(ExportedServiceID::UserManagerService),
            3625566374 => Some(ExportedServiceID::ResponseService),
            _ => None,
        }
    }
}

/// Services the peer exposes, each with the id it must declare for it during the handshake; no other id is allowed.
#[derive(Debug, Clone, Copy, PartialEq, Eq, Structural)]
pub enum ImportedServiceID {
    AccountNotify,
    AchievementsNotify,
    AuthenticationClient,
    ChallengeNotify,
    ChannelInvitationNotify,
    ChannelSubscriber,
    ExchangeNotify,
    DiagService,
    FriendsNotify,
    NotificationListener,
    UserManagerNotify,
    ResponseService,
}

impl ImportedServiceID {
    /// The id a service is bound to on this connection.
    pub open spec fn spec_id(self) -> u32 {
        match self {
            ImportedServiceID::AccountNotify => 1,
            ImportedServiceID::AchievementsNotify => 2,
            ImportedServiceID::AuthenticationClient => 3,
            ImportedServiceID::ChallengeNotify => 4,
            ImportedServiceID::ChannelInvitationNotify => 5,
            ImportedServiceID::ChannelSubscriber => 6,
            ImportedServiceID::ExchangeNotify => 7,
            ImportedServiceID::DiagService => 8,
            ImportedServiceID::FriendsNotify => 9,
            ImportedServiceID::NotificationListener => 10,
            ImportedServiceID::UserManagerNotify => 11,
            ImportedServiceID::ResponseService => 254,
        }
    }

    /// The name hash of the service.
    pub open spec fn spec_hash(self) -> u32 {
        match self {
            ImportedServiceID::AccountNotify => 1423956503,
            ImportedServiceID::AchievementsNotify => 3571241107,
            ImportedServiceID::AuthenticationClient => 1898188341,
            ImportedServiceID::ChallengeNotify => 3151632159,
            ImportedServiceID::ChannelInvitationNotify => 4035247136,
            ImportedServiceID::ChannelSubscriber => 3213656212,
            ImportedServiceID::ExchangeNotify => 376431777,
            ImportedServiceID::DiagService => 3111080599,
            ImportedServiceID::FriendsNotify => 1864735251,
            ImportedServiceID::NotificationListener => 3788189352,
            ImportedServiceID::UserManagerNotify => 3162975266,
            ImportedServiceID::ResponseService => 3625566374,
        }
    }

    /// The service with name hash `hash`, if the table holds one.
    pub open spec fn spec_from_hash(hash: u32) -> Option<Self> {
        match hash {
            1423956503 => Some(ImportedServiceID::AccountNotify),
            3571241107 => Some(ImportedServiceID::AchievementsNotify),
            1898188341 => Some(ImportedServiceID::AuthenticationClient),
            3151632159 => Some(ImportedServiceID::ChallengeNotify),
            4035247136 => Some(ImportedServiceID::ChannelInvitationNotify),
            3213656212 => Some(ImportedServiceID::ChannelSubscriber),
            376431777 => Some(ImportedServiceID::ExchangeNotify),
            3111080599 => Some(ImportedServiceID::DiagService),
            1864735251 => Some(ImportedServiceID::FriendsNotify),
            3788189352 => Some(ImportedServiceID::NotificationListener),
            3162975266 => Some(ImportedServiceID::UserManagerNotify),
            3625566374 => Some(ImportedServiceID::ResponseService),
            _ => None,
        }
    }

    /// The id a service is bound to.
    pub fn id(self) -> (r: u32)
        ensures
            r == self.spec_id(),
    {
        match self {
            ImportedServiceID::AccountNotify => 1,
            ImportedServiceID::AchievementsNotify => 2,
            ImportedServiceID::AuthenticationClient => 3,
            ImportedServiceID::ChallengeNotify => 4,
            ImportedServiceID::ChannelInvitationNotify => 5,
            ImportedServiceID::ChannelSubscriber => 6,
            ImportedServiceID::ExchangeNotify => 7,
            ImportedServiceID::DiagService => 8,
            ImportedServiceID::FriendsNotify => 9,
            ImportedServiceID::NotificationListener => 10,
            ImportedServiceID::UserManagerNotify => 11,
            ImportedServiceID::ResponseService => 254,
        }
    }

    /// Looks the service up by its name hash.
    pub fn from_hash(hash: u32) -> (r: Option<Self>)
        ensures
            r == Self::spec_from_hash(hash),
            r matches Some(s) ==> s.spec_hash() == hash,
    {
        match hash {
            1423956503 => Some(ImportedServiceID::AccountNotify),
            3571241107 => Some(ImportedServiceID::AchievementsNotify),
            1898188341 => Some(ImportedServiceID::AuthenticationClient),
            3151632159 => Some(ImportedServiceID::ChallengeNotify),
            4035247136 => Some(ImportedServiceID::ChannelInvitationNotify),
            3213656212 => Some(ImportedServiceID::ChannelSubscriber),
            376431777 => Some(ImportedServiceID::ExchangeNotify),
            3111080599 => Some(ImportedServiceID::DiagService),
            1864735251 => Some(ImportedServiceID::FriendsNotify),
            3788189352 => Some(ImportedServiceID::NotificationListener),
            3162975266 => Some(ImportedServiceID::UserManagerNotify),
            3625566374 => Some(ImportedServiceID::ResponseService),
            _ => None,
        }
    }
}

/// The id bound to the exported service with name hash `hash`, or the
/// sentinel 0 when this process exposes no such service.
pub open spec fn exported_id_or_sentinel(hash: u32) -> u32 {
    match ExportedServiceID::spec_from_hash(hash) {
        Some(s) => s.spec_id(),
        None => 0,
    }
}

/// Whether the peer's declaration that it exposes the service with name
/// hash `hash` under `id` agrees with the imported table.
pub open spec fn import_matches(hash: u32, id: u32) -> bool {
    match ImportedServiceID::spec_from_hash(hash) {
        Some(s) => s.spec_id() == id,
        None => false,
    }
}

} // verus!
