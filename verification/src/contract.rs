//! Contracts and the rules by which they change: a host posts a contract,
//! a challenger accepts it and may withdraw again, the host may hand over
//! command to the challenger or scrub the contract, and anyone may comment.

use vstd::prelude::*;
use crate::text::{same_text, views};

verus! {

/// The status of a contract that awaits a challenger.
pub const STATUS_OPEN: &'static str = "Open";

/// The status of a contract that a challenger has accepted.
pub const STATUS_ACCEPTED: &'static str = "Accepted";

/// A message on the comms channel of a contract.
#[derive(Clone, Debug, PartialEq, Eq)]
pub struct Comment {
    pub author: String,
    pub text: String,
}

/// A comment as plain values.
pub struct CommentView {
    pub author: Seq<char>,
    pub text: Seq<char>,
}

impl View for Comment {
    type V = CommentView;

    open spec fn view(&self) -> CommentView {
        CommentView { author: self.author@, text: self.text@ }
    }
}

/// A contract on the board.
#[derive(Clone, Debug, PartialEq, Eq)]
pub struct Contract {
    pub id: u64,
    pub host: String,
    pub host_force: String,
    pub host_assets: String,
    pub challenger: Option<String>,
    pub challenger_force: Option<String>,
    pub challenger_assets: Option<String>,
    pub mission_type: String,
    pub bv2: String,
    pub era: String,
    pub map: String,
    pub intel_level: String,
    pub match_time: String,
    pub expires_at: i64,
    pub force_comp: String,
    pub ruleset: String,
    pub optional_rules: Vec<String>,
    pub status: String,
    pub comments: Vec<Comment>,
}

/// A contract as plain values.
pub struct ContractView {
    pub id: u64,
    pub host: Seq<char>,
    pub host_force: Seq<char>,
    pub host_assets: Seq<char>,
    pub challenger: Option<Seq<char>>,
    pub challenger_force: Option<Seq<char>>,
    pub challenger_assets: Option<Seq<char>>,
    pub mission_type: Seq<char>,
    pub bv2: Seq<char>,
    pub era: Seq<char>,
    pub map: Seq<char>,
    pub intel_level: Seq<char>,
    pub match_time: Seq<char>,
    pub expires_at: i64,
    pub force_comp: Seq<char>,
    pub ruleset: Seq<char>,
    pub optional_rules: Seq<Seq<char>>,
    pub status: Seq<char>,
    pub comments: Seq<CommentView>,
}

/// The view of an optional string.
pub open spec fn opt_view(o: Option<String>) -> Option<Seq<char>> {
    match o {
        Some(s) => Some(s@),
        None => None,
    }
}

/// The views of a sequence of comments.
pub open spec fn comment_views(v: Seq<Comment>) -> Seq<CommentView> {
    v.map_values(|c: Comment| c@)
}

impl View for Contract {
    type V = ContractView;

    open spec fn view(&self) -> ContractView {
        ContractView {
            id: self.id,
            host: self.host@,
            host_force: self.host_force@,
            host_assets: self.host_assets@,
            challenger: opt_view(self.challenger),
            challenger_force: opt_view(self.challenger_force),
            challenger_assets: opt_view(self.challenger_assets),
            mission_type: self.mission_type@,
            bv2: self.bv2@,
            era: self.era@,
            map: self.map@,
            intel_level: self.intel_level@,
            match_time: self.match_time@,
            expires_at: self.expires_at,
            force_comp: self.force_comp@,
            ruleset: self.ruleset@,
            optional_rules: views(self.optional_rules@),
            status: self.status@,
            comments: comment_views(self.comments@),
        }
    }
}

/// The contract after `user` accepted it with a force and assets.
pub open spec fn accepted(
    c: ContractView,
    user: Seq<char>,
    force: Seq<char>,
    assets: Seq<char>,
) -> ContractView {
    ContractView {
        status: STATUS_ACCEPTED@,
        challenger: Some(user),
        challenger_force: Some(force),
        challenger_assets: Some(assets),
        ..c
    }
}

/// `user` is the active challenger of the contract.
pub open spec fn is_challenger(c: ContractView, user: Seq<char>) -> bool {
    c.challenger == Some(user)
}

/// The contract after `user` asked to withdraw: only the active challenger
/// withdraws, and the contract is open again.
pub open spec fn withdrawn(c: ContractView, user: Seq<char>) -> ContractView {
    if is_challenger(c, user) {
        ContractView {
            status: STATUS_OPEN@,
            challenger: None,
            challenger_force: None,
            challenger_assets: None,
            ..c
        }
    } else {
        c
    }
}

/// The host may hand over command: `user` hosts the contract and there is
/// a challenger.
pub open spec fn may_transfer(c: ContractView, user: Seq<char>) -> bool {
    c.host == user && c.challenger is Some
}

/// An optional text, or the empty text.
pub open spec fn or_empty(o: Option<Seq<char>>) -> Seq<char> {
    match o {
        Some(s) => s,
        None => Seq::empty(),
    }
}

/// The contract after `user` asked to hand over command: the challenger
/// becomes the host with their force and assets, and the contract is open.
pub open spec fn transferred(c: ContractView, user: Seq<char>) -> ContractView {
    if may_transfer(c, user) {
        ContractView {
            host: c.challenger->0,
            host_force: or_empty(c.challenger_force),
            host_assets: or_empty(c.challenger_assets),
            challenger: None,
            challenger_force: None,
            challenger_assets: None,
            status: STATUS_OPEN@,
            ..c
        }
    } else {
        c
    }
}

/// The contract after `user` said `text` on its comms channel.
pub open spec fn commented(c: ContractView, user: Seq<char>, text: Seq<char>) -> ContractView {
    ContractView { comments: c.comments.push(CommentView { author: user, text }), ..c }
}

/// Only the host may scrub a contract.
pub open spec fn may_delete(c: ContractView, user: Seq<char>) -> bool {
    c.host == user
}

impl Contract {
    /// `user` accepts the contract with a force roster and assets.
    pub fn accept(&mut self, user: &str, force: String, assets: String)
        ensures
            final(self)@ == accepted(old(self)@, user@, force@, assets@),
    {
        self.status = String::from_str(STATUS_ACCEPTED);
        self.challenger = Some(String::from_str(user));
        self.challenger_force = Some(force);
        self.challenger_assets = Some(assets);
    }

    /// Whether `user` is the active challenger.
    pub fn is_challenger(&self, user: &str) -> (r: bool)
        ensures
            r == is_challenger(self@, user@),
    {
        match &self.challenger {
            Some(ch) => same_text(ch.as_str(), user),
            None => false,
        }
    }

    /// `user` withdraws as challenger; returns whether anything changed.
    pub fn withdraw(&mut self, user: &str) -> (changed: bool)
        ensures
            changed == is_challenger(old(self)@, user@),
            final(self)@ == withdrawn(old(self)@, user@),
    {
        if self.is_challenger(user) {
            self.status = String::from_str(STATUS_OPEN);
            self.challenger = None;
            self.challenger_force = None;
            self.challenger_assets = None;
            true
        } else {
            false
        }
    }

    /// `user` hands over command to the challenger; returns whether anything
    /// changed.
    pub fn transfer(&mut self, user: &str) -> (changed: bool)
        ensures
            changed == may_transfer(old(self)@, user@),
            final(self)@ == transferred(old(self)@, user@),
    {
        if same_text(self.host.as_str(), user) && self.challenger.is_some() {
            let challenger = self.challenger.take();
            let force = self.challenger_force.take();
            let assets = self.challenger_assets.take();
            self.host = match challenger {
                Some(h) => h,
                None => String::new(),
            };
            self.host_force = match force {
                Some(f) => f,
                None => String::new(),
            };
            self.host_assets = match assets {
                Some(a) => a,
                None => String::new(),
            };
            self.status = String::from_str(STATUS_OPEN);
            true
        } else {
            false
        }
    }

    /// `user` says `text` on the comms channel.
    pub fn add_comment(&mut self, user: &str, text: String)
        ensures
            final(self)@ == commented(old(self)@, user@, text@),
    {
        let ghost before = comment_views(self.comments@);
        self.comments.push(Comment { author: String::from_str(user), text });
        assert(comment_views(self.comments@) =~= before.push(
            CommentView { author: user@, text: text@ },
        ));
    }

    /// Whether `user` may scrub the contract.
    pub fn can_be_deleted_by(&self, user: &str) -> (r: bool)
        ensures
            r == may_delete(self@, user@),
    {
        same_text(self.host.as_str(), user)
    }
}

} // verus!
