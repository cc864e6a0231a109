//! Configuration, command-line options, the API session and errors.

use vstd::prelude::*;
use crate::key::decimal;

verus! {

/// Runtime configuration.
#[derive(Clone, Debug, PartialEq, Eq)]
pub struct Settings {
    /// Client access identifier
    pub client_id: String,
    /// Secret
    pub client_secret: String,
    /// The realm id, e.g. 1403 = Draenor
    pub realm_id: u16,
    /// The parent directory for all data
    pub data_dir: String,
    /// The time to delay between re-sync'ing data
    pub delay_mins: u64,
    /// Whether to save to fb or not
    pub save_flexbuffer: bool,
    /// The hostname for the redis database
    pub db_host: String,
}

impl Settings {
    /// Settings from their values, as a configuration source supplies them.
    pub fn new(
        client_id: String,
        client_secret: String,
        realm_id: u16,
        data_dir: String,
        delay_mins: u64,
        save_flexbuffer: bool,
        db_host: String,
    ) -> (r: Settings)
        ensures
            r.client_id@ == client_id@,
            r.client_secret@ == client_secret@,
            r.realm_id == realm_id,
            r.data_dir@ == data_dir@,
            r.delay_mins == delay_mins,
            r.save_flexbuffer == save_flexbuffer,
            r.db_host@ == db_host@,
    {
        Settings { client_id, client_secret, realm_id, data_dir, delay_mins, save_flexbuffer, db_host }
    }

    /// The delay between poll cycles in seconds, saturating at `u64::MAX`.
    pub fn delay_secs(&self) -> (r: u64)
        ensures
            r == if self.delay_mins * 60 <= u64::MAX {
                (self.delay_mins * 60) as u64
            } else {
                u64::MAX
            },
    {
        if self.delay_mins <= u64::MAX / 60 {
            self.delay_mins * 60
        } else {
            u64::MAX
        }
    }
}

/// Command-line options.
#[derive(Clone, Debug, PartialEq, Eq)]
pub struct Opts {
    /// The command
    pub cmd: SubCmd,
}

#[derive(Clone, Debug, PartialEq, Eq)]
pub enum SubCmd {
    /// Continuously download auction house and other game data
    Sync(SyncOpts),
    /// Load to a Redis instance using raw protocol messages (with `redis-cli --pipe`)
    Load,
}

#[derive(Clone, Copy, Debug, PartialEq, Eq)]
pub struct SyncOpts {
    /// Don't load in to the database on-the-fly
    pub no_load: bool,
}

impl SyncOpts {
    /// Whether a downloaded snapshot of `n_auctions` listings is written to the store.
    pub fn should_load(&self, n_auctions: usize) -> (r: bool)
        ensures
            r == (!self.no_load && n_auctions > 0),
    {
        !self.no_load && n_auctions > 0
    }
}

/// An access token of the auction API.
#[derive(Clone, Debug, PartialEq, Eq)]
pub struct Auth {
    pub access_token: String,
    pub token_type: String,
    pub expires_in: u32,
    /// Optional scoping parameter e.g. wow.profile
    pub scope: Option<String>,
}

/// A period of authenticated interaction with the auction API.
#[derive(Clone, Debug, PartialEq, Eq)]
pub struct Session {
    /// When the session opened, in unix seconds.
    pub start_time: i64,
    /// The client identifier
    pub client_id: String,
    /// Secret
    pub client_secret: String,
    /// The realm id, e.g. 1403 = Draenor
    pub realm_id: u16,
    pub auth: Auth,
}

pub open spec fn auction_url_of(realm_id: u16, token: Seq<char>) -> Seq<char> {
    "https://eu.api.blizzard.com/data/wow/connected-realm/"@ + decimal(realm_id as nat)
        + "/auctions?namespace=dynamic-eu&locale=en_US&access_token="@ + token
}

impl Session {
    /// Whether the token has expired at `now` (unix seconds): the session's
    /// start plus the token's lifetime lies before `now`.
    pub fn has_expired(&self, now: i64) -> (r: bool)
        ensures
            r == (self.start_time + self.auth.expires_in < now),
    {
        (self.start_time as i128) + (self.auth.expires_in as i128) < (now as i128)
    }

    /// The URL of the realm's auction snapshot.
    pub fn auction_url(&self) -> (r: String)
        ensures
            r@ == auction_url_of(self.realm_id, self.auth.access_token@),
    {
        let mut r = String::from_str("https://eu.api.blizzard.com/data/wow/connected-realm/");
        let realm = crate::key::decimal_string(self.realm_id as u64);
        r.append(realm.as_str());
        r.append("/auctions?namespace=dynamic-eu&locale=en_US&access_token=");
        r.append(self.auth.access_token.as_str());
        r
    }
}

/// What can go wrong in a poll cycle.
#[derive(Clone, Debug, PartialEq, Eq)]
pub enum Error {
    ApiFailure(String),
    AuctionLookup(&'static str),
    ConfigError(String),
    IOError(String),
}

/// Reference data loaded at start-up: the ids of interest.
#[derive(Clone, Debug, PartialEq, Eq)]
pub struct InitRefData {
    pub watchlist: Vec<u64>,
}

impl InitRefData {
    /// The command that adds the watchlist's ids to the `watchlist` set.
    pub fn command(&self) -> (r: Vec<String>)
        ensures
            crate::store::views(r@) == seq!["SADD"@, "watchlist"@] + self.watchlist@.map_values(
                |id: u64| decimal(id as nat),
            ),
    {
        let mut r: Vec<String> = Vec::new();
        r.push(String::from_str("SADD"));
        r.push(String::from_str("watchlist"));
        let ghost head = crate::store::views(r@);
        let mut i: usize = 0;
        while i < self.watchlist.len()
            invariant
                i <= self.watchlist@.len(),
                head == seq!["SADD"@, "watchlist"@],
                crate::store::views(r@) == head + self.watchlist@.take(i as int).map_values(
                    |id: u64| decimal(id as nat),
                ),
            decreases self.watchlist@.len() - i,
        {
            let ghost before = r@;
            let d = crate::key::decimal_string(self.watchlist[i]);
            r.push(d);
            assert(crate::store::views(r@) =~= crate::store::views(before).push(d@));
            assert(self.watchlist@.take(i + 1) =~= self.watchlist@.take(i as int).push(
                self.watchlist@[i as int],
            ));
            assert(self.watchlist@.take(i + 1).map_values(|id: u64| decimal(id as nat))
                =~= self.watchlist@.take(i as int).map_values(|id: u64| decimal(id as nat)).push(
                decimal(self.watchlist@[i as int] as nat),
            ));
            assert(crate::store::views(r@) =~= head + self.watchlist@.take(i + 1).map_values(
                |id: u64| decimal(id as nat),
            ));
            i = i + 1;
        }
        assert(self.watchlist@.take(self.watchlist@.len() as int) =~= self.watchlist@);
        r
    }
}

} // verus!
