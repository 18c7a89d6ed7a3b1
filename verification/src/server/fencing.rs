use vstd::prelude::*;
use crate::protocol::transport::{decimal, decimal_string};
use crate::server::config::RmpConfig;

verus! {

/// The node and epoch on whose behalf work is done; a newer epoch fences
/// off an older one.
pub struct FencingToken {
    pub node_id: String,
    pub epoch: u64,
}

impl Clone for FencingToken {
    fn clone(&self) -> (r: Self)
        ensures
            r.node_id@ == self.node_id@,
            r.epoch == self.epoch,
    {
        FencingToken { node_id: self.node_id.clone(), epoch: self.epoch }
    }
}

#[verifier::external_type_specification]
#[verifier::external_body]
pub struct ExParseIntError(std::num::ParseIntError);

/// The text `str::trim` leaves of `text`.
pub uninterp spec fn trimmed_text(text: Seq<char>) -> Seq<char>;

/// The number `str::parse::<u64>` reads from `text`, if any.
pub uninterp spec fn parsed_u64(text: Seq<char>) -> Option<u64>;

/// Calls `str::trim`. Claimed: the result is `trimmed_text` of the text,
/// and the decimal text of a number, which has no white space to remove,
/// stays as it is.
#[verifier::external_body]
fn trim_text<'a>(data: &'a str) -> (r: &'a str)
    ensures
        r@ == trimmed_text(data@),
        forall|n: u64| data@ == #[trigger] decimal(n as nat) ==> r@ == data@,
{
    data.trim()
}

/// Calls `str::parse::<u64>`. Claimed: it succeeds exactly when
/// `parsed_u64` of the text is a number, with that number, and the decimal
/// text of a number reads back as that number.
#[verifier::external_body]
fn parse_u64_text(text: &str) -> (r: Result<u64, std::num::ParseIntError>)
    ensures
        r is Ok <==> parsed_u64(text@) is Some,
        r matches Ok(v) ==> parsed_u64(text@) == Some(v),
        forall|n: u64| text@ == #[trigger] decimal(n as nat) ==> r is Ok && r->Ok_0 == n,
{
    text.parse::<u64>()
}

/// The number a stored epoch file holds: its text trimmed, then read as a
/// `u64`.
pub open spec fn parsed_epoch(text: Seq<char>) -> Option<u64> {
    parsed_u64(trimmed_text(text))
}

/// Reads the number a stored epoch file holds; the decimal text of a
/// number reads back as that number.
fn parse_epoch(data: &str) -> (r: Option<u64>)
    ensures
        r == parsed_epoch(data@),
        forall|n: u64| data@ == #[trigger] decimal(n as nat) ==> r == Some(n),
{
    let t = trim_text(data);
    match parse_u64_text(t) {
        Ok(v) => Some(v),
        Err(_) => None,
    }
}

/// The epoch a node starts with: one more than the stored epoch (a stored
/// text that is not a number counts as 0), or 1 when nothing is stored.
pub open spec fn starting_epoch(stored: Option<Option<u64>>) -> int {
    match stored {
        None => 1,
        Some(None) => 1,
        Some(Some(e)) => e + 1,
    }
}

/// Hands out fencing tokens for one node.
pub struct FenceManager {
    pub node_id: String,
    pub epoch: u64,
    pub epoch_file: String,
}

impl FenceManager {
    /// A manager for the configured node, given what its epoch file held:
    /// `None` when there was no file, else the parsed contents.
    pub fn new(config: &RmpConfig, stored: Option<Option<u64>>) -> (r: FenceManager)
        requires
            stored != Some(Some(u64::MAX)),
        ensures
            r.epoch == starting_epoch(stored),
            r.node_id@ == config.node_id@,
            r.epoch_file@ == config.fencing_epoch_file@,
    {
        let epoch = match stored {
            None => 1,
            Some(parsed) => match parsed {
                Some(e) => e + 1,
                None => 1,
            },
        };
        FenceManager { node_id: config.node_id.clone(), epoch, epoch_file: config.fencing_epoch_file.clone() }
    }

    /// A manager for the configured node, given the text of its epoch file
    /// (`None` when there is none): the stored epoch plus one, or 1 when the
    /// text is no number. A stored epoch of `u64::MAX` has no successor:
    /// then no manager is made.
    pub fn from_stored(config: &RmpConfig, stored_text: Option<&str>) -> (r: Option<FenceManager>)
        ensures
            ({
                let stored = match stored_text {
                    Some(t) => Some(parsed_epoch(t@)),
                    None => None,
                };
                &&& r is None <==> stored == Some(Some(u64::MAX))
                &&& r matches Some(m) ==> m.epoch == starting_epoch(stored)
                    && m.node_id@ == config.node_id@
                    && m.epoch_file@ == config.fencing_epoch_file@
            }),
            forall|n: u64| n < u64::MAX && stored_text.is_some() && stored_text.unwrap()@ == #[trigger] decimal(n as nat)
                ==> (r.is_some() && r.unwrap().epoch == n + 1),
    {
        let stored = match stored_text {
            Some(t) => Some(parse_epoch(t)),
            None => None,
        };
        if stored == Some(Some(u64::MAX)) {
            return None;
        }
        Some(FenceManager::new(config, stored))
    }

    /// The text the epoch file is written with: the epoch in decimal.
    pub fn epoch_text(&self) -> (r: String)
        ensures
            r@ == decimal(self.epoch as nat),
    {
        decimal_string(self.epoch)
    }

    /// A token for the current epoch.
    pub fn token(&self) -> (r: FencingToken)
        ensures
            r.node_id@ == self.node_id@,
            r.epoch == self.epoch,
    {
        FencingToken { node_id: self.node_id.clone(), epoch: self.epoch }
    }

    /// Moves to the next epoch (wrapping after `u64::MAX`) and returns its
    /// token.
    pub fn increment_epoch(&mut self) -> (r: FencingToken)
        ensures
            final(self).epoch == (if old(self).epoch == u64::MAX { 0 } else { old(self).epoch + 1 }),
            final(self).node_id@ == old(self).node_id@,
            final(self).epoch_file@ == old(self).epoch_file@,
            r.node_id@ == old(self).node_id@,
            r.epoch == final(self).epoch,
    {
        self.epoch = self.epoch.wrapping_add(1);
        FencingToken { node_id: self.node_id.clone(), epoch: self.epoch }
    }
}

} // verus!
