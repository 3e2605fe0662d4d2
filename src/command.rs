//! The leaderboard request handler's decisions. The caller loads the history
//! from the store and reads the request body; the listener checks the
//! request's token and answers with the scoreboard, or with a failure when
//! the history could not be loaded or the token is wrong.
use crate::scoreboard::{format_scoreboard, is_ranking, scoreboard_text, EntryView};
use crate::slackinfo::SlackInfo;
use crate::types::{Deng, Error};
use vstd::prelude::*;

verus! {

/// Name of the form parameter that carries the request's verification token.
pub const TOKEN_PARAM_NAME: &'static str = "token";

/// The name/value pairs of an `application/x-www-form-urlencoded` body.
pub uninterp spec fn form_pairs(body: Seq<char>) -> Seq<(Seq<char>, Seq<char>)>;

pub open spec fn pairs_view(v: Seq<(String, String)>) -> Seq<(Seq<char>, Seq<char>)> {
    v.map_values(|p: (String, String)| (p.0@, p.1@))
}

/// Relies on `url::form_urlencoded::parse` (url 1.7) and `Parse::into_owned`:
/// the percent-decoded name/value pairs of the body, in order; an empty body
/// has none.
#[verifier::external_body]
fn parse_form(body: &str) -> (r: Vec<(String, String)>)
    ensures
        pairs_view(r@) == form_pairs(body@),
        body@.len() == 0 ==> r@.len() == 0,
{
    url::form_urlencoded::parse(body.as_bytes()).into_owned().collect()
}

/// The value of the last pair named `name`, as a map built from the pairs in
/// order would hold it.
pub open spec fn param_value(pairs: Seq<(Seq<char>, Seq<char>)>, name: Seq<char>) -> Option<Seq<char>>
    decreases pairs.len(),
{
    if pairs.len() == 0 {
        None
    } else if pairs.last().0 == name {
        Some(pairs.last().1)
    } else {
        param_value(pairs.drop_last(), name)
    }
}

/// The token of a request with these form pairs.
pub fn token_param(pairs: &Vec<(String, String)>) -> (r: Option<String>)
    ensures
        match r {
            Some(t) => param_value(pairs_view(pairs@), TOKEN_PARAM_NAME@) == Some(t@),
            None => param_value(pairs_view(pairs@), TOKEN_PARAM_NAME@) is None,
        },
{
    let ghost pv = pairs_view(pairs@);
    let name = TOKEN_PARAM_NAME.to_owned();
    let mut i: usize = pairs.len();
    assert(pv.take(i as int) =~= pv);
    while i > 0
        invariant
            pv == pairs_view(pairs@),
            name@ == TOKEN_PARAM_NAME@,
            i <= pv.len(),
            param_value(pv, TOKEN_PARAM_NAME@) == param_value(pv.take(i as int), TOKEN_PARAM_NAME@),
        decreases i,
    {
        assert(pv.take(i as int).drop_last() =~= pv.take(i - 1));
        assert(pv.take(i as int).last() == pv[i - 1]);
        if pairs[i - 1].0 == name {
            return Some(pairs[i - 1].1.clone());
        }
        i -= 1;
    }
    None
}

#[derive(PartialEq, Eq, Structural, Clone, Copy, Debug)]
pub enum CommandStatus {
    Success,
    InternalServerError,
}

/// The answer to a leaderboard request: a status and the scoreboard text.
pub struct CommandReply {
    pub status: CommandStatus,
    pub text: String,
}

/// A request is answered with the scoreboard when the history was loaded (and
/// fits the score arithmetic) and the request carries the expected token.
pub open spec fn accepted(loaded: Result<Vec<Deng>, Error>, token: Option<Seq<char>>, expected: Seq<char>) -> bool {
    &&& loaded matches Ok(dengs)
    &&& dengs@.len() * 3 <= u64::MAX
    &&& token == Some(expected)
}

/// The listener of leaderboard requests, with its store connection.
pub struct CommandListener<C> {
    info: SlackInfo,
    db_conn: C,
}

impl<C> CommandListener<C> {
    pub closed spec fn spec_info(&self) -> SlackInfo {
        self.info
    }

    pub closed spec fn spec_db_conn(&self) -> C {
        self.db_conn
    }

    pub fn new(info: SlackInfo, db_conn: C) -> (r: Self)
        ensures
            r.spec_info() == info,
            r.spec_db_conn() == db_conn,
    {
        Self { info, db_conn }
    }

    /// The connection metadata that names the users.
    pub fn info(&self) -> (r: &SlackInfo)
        ensures
            *r == self.spec_info(),
    {
        &self.info
    }

    /// The store connection that requests are served from.
    pub fn db_conn(&self) -> (r: &C)
        ensures
            *r == self.spec_db_conn(),
    {
        &self.db_conn
    }

    /// The scoreboard text of the history `dengs`, named after the directory.
    pub fn build_scoreboard_message(&self, dengs: &[Deng]) -> (r: String)
        requires
            dengs@.len() * 3 <= u64::MAX,
        ensures
            exists|e: Seq<EntryView>| is_ranking(dengs@, e) && r@ == scoreboard_text(self.spec_info().users@, e),
            forall|e: Seq<EntryView>| is_ranking(dengs@, e) ==> r@ == scoreboard_text(self.spec_info().users@, e),
    {
        format_scoreboard(dengs, self.info.users.as_slice())
    }

    /// The reply to a request whose token is `token`, given the outcome of
    /// loading the history.
    pub fn reply_for(&self, loaded: Result<Vec<Deng>, Error>, token: Option<String>, expected_token: &str) -> (r: CommandReply)
        ensures
            ({
                let token_view = match token {
                    Some(t) => Some(t@),
                    None => None,
                };
                if accepted(loaded, token_view, expected_token@) {
                    &&& r.status == CommandStatus::Success
                    &&& exists|e: Seq<EntryView>| is_ranking(loaded->Ok_0@, e) && r.text@ == scoreboard_text(self.spec_info().users@, e)
                    &&& forall|e: Seq<EntryView>| is_ranking(loaded->Ok_0@, e) ==> r.text@ == scoreboard_text(self.spec_info().users@, e)
                } else {
                    r.status == CommandStatus::InternalServerError && r.text@.len() == 0
                }
            }),
    {
        let failure = CommandReply { status: CommandStatus::InternalServerError, text: String::new() };
        let dengs = match loaded {
            Err(_) => {
                return failure;
            },
            Ok(d) => d,
        };
        if dengs.len() as u64 > u64::MAX / 3 {
            return failure;
        }
        let token = match token {
            None => {
                return failure;
            },
            Some(t) => t,
        };
        if !(token == expected_token.to_owned()) {
            return failure;
        }
        let text = self.build_scoreboard_message(dengs.as_slice());
        CommandReply { status: CommandStatus::Success, text }
    }

    /// The reply to a request with the form body `body`, given the outcome of
    /// loading the history.
    pub fn respond(&self, loaded: Result<Vec<Deng>, Error>, body: &str, expected_token: &str) -> (r: CommandReply)
        ensures
            ({
                let token = param_value(form_pairs(body@), TOKEN_PARAM_NAME@);
                if accepted(loaded, token, expected_token@) {
                    &&& r.status == CommandStatus::Success
                    &&& forall|e: Seq<EntryView>| is_ranking(loaded->Ok_0@, e) ==> r.text@ == scoreboard_text(self.spec_info().users@, e)
                } else {
                    r.status == CommandStatus::InternalServerError && r.text@.len() == 0
                }
            }),
    {
        let pairs = parse_form(body);
        let token = token_param(&pairs);
        self.reply_for(loaded, token, expected_token)
    }
}

} // verus!
