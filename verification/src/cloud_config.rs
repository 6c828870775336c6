//! Configuration of the commit cloud subscriber and the defaults of the
//! fields that a configuration file leaves out.

use vstd::prelude::*;

verus! {

/// The configuration of the commit cloud subscriber. Every field has a
/// default, so a configuration file may leave out any of them.
#[derive(Debug, PartialEq, Eq)]
pub struct CommitCloudConfig {
    /// Server-Sent Events endpoint for real-time notifications.
    pub notification_url: Option<String>,
    /// Endpoint for real-time polling of notifications.
    pub polling_update_url: Option<String>,
    /// Whether updates are polled through the endpoint above.
    pub polling_updates_enabled: bool,
    /// Path to the directory that holds the connected subscribers.
    pub connected_subscribers_path: Option<String>,
    /// Path to the directory that holds the file with the user's token.
    pub user_token_path: Option<String>,
    /// Number of retries when a cloud sync is triggered.
    pub cloudsync_retries: u32,
    /// Tcp port to run a receiver on.
    pub tcp_receiver_port: u16,
}

/// The home directory, given the value of the variable that names it on
/// this system: the value where it is set and not empty.
pub fn home_dir_os(var: Option<String>) -> (res: Option<String>)
    ensures
        match var {
            Some(val) => if val@.len() > 0 {
                res == Some(val)
            } else {
                res.is_none()
            },
            None => res.is_none(),
        },
{
    match var {
        Some(val) => {
            if !val.as_str().is_empty() {
                Some(val)
            } else {
                None
            }
        },
        None => None,
    }
}

/// The default directory of the connected subscribers: the home directory.
pub fn connected_subscribers_path(home_var: Option<String>) -> (res: Option<String>)
    ensures
        match home_var {
            Some(val) => if val@.len() > 0 {
                res == Some(val)
            } else {
                res.is_none()
            },
            None => res.is_none(),
        },
{
    home_dir_os(home_var)
}

/// The default directory of the user's token: the home directory.
pub fn user_token_path(home_var: Option<String>) -> (res: Option<String>)
    ensures
        match home_var {
            Some(val) => if val@.len() > 0 {
                res == Some(val)
            } else {
                res.is_none()
            },
            None => res.is_none(),
        },
{
    home_dir_os(home_var)
}

/// The default number of retries of a cloud sync.
pub fn cloudsync_retries() -> (res: u32)
    ensures
        res == 2,
{
    2
}

/// The default port of the receiver.
pub fn tcp_receiver_port() -> (res: u16)
    ensures
        res == 15432,
{
    15432
}

} // verus!
