//! Process configuration, as plain data: the platform credentials and the two sessions.

use vstd::prelude::*;

verus! {

/// The accounts allowed to run privileged commands.
pub const SUDOERS: [i64; 1] = [1155717290];

/// The account may run privileged commands.
pub fn is_sudoer(id: i64) -> (r: bool)
    ensures
        r == exists|i: int| 0 <= i < SUDOERS@.len() && SUDOERS@[i] == id,
{
    let list = SUDOERS;
    let mut i: usize = 0;
    while i < list.len()
        invariant
            list@ == SUDOERS@,
            i <= list@.len(),
            forall|k: int| 0 <= k < i ==> list@[k] != id,
        decreases list@.len() - i,
    {
        if list[i] == id {
            return true;
        }
        i = i + 1;
    }
    false
}

/// The whole configuration.
pub struct Config {
    pub telegram: Telegram,
    pub bot: Bot,
    pub user: User,
}

/// The platform application's credentials.
pub struct Telegram {
    pub api_id: i32,
    pub api_hash: String,
    pub flood_sleep_threshold: u32,
}

/// The bot session.
pub struct Bot {
    pub token: String,
    pub catch_up: bool,
    pub session_file: String,
}

/// The user session.
pub struct User {
    pub phone_number: String,
    pub catch_up: bool,
    pub session_file: String,
}

} // verus!
