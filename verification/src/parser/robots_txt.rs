//! Reading a `robots.txt` body into a decision table for one user agent.
//! The table itself is the `texting_robots` crate's; the library wraps its
//! construction and maps its error into one of its own.

use vstd::prelude::*;

verus! {

#[verifier::external_type_specification]
#[verifier::external_body]
pub struct ExRobot(texting_robots::Robot);

/// A malformed `robots.txt`: the user agent the table was asked for, the
/// raw body, and the parser's message.
#[derive(Debug, Clone, PartialEq, Eq)]
pub struct InvalidRobotRules {
    pub user_agent: String,
    pub raw: String,
    pub message: String,
}

impl InvalidRobotRules {
    pub fn new(user_agent: String, raw: String, message: String) -> (r: Self)
        ensures
            r.user_agent == user_agent,
            r.raw == raw,
            r.message == message,
    {
        Self { user_agent, raw, message }
    }
}

/// Whether the robots parser accepts this body for this user agent. The
/// verdict of `texting_robots::Robot::new` depends on its two arguments
/// alone, so it can be named, though its definition takes a parser to
/// state.
pub uninterp spec fn robots_parse_ok(agent: Seq<char>, raw: Seq<char>) -> bool;

/// Relies on `texting_robots::Robot::new` to parse a `robots.txt` body for
/// one user agent: its verdict is a function of the agent and the body
/// alone, and on failure the error's message is handed back.
#[verifier::external_body]
fn robot_new(user_agent: &str, raw: &str) -> (r: Result<texting_robots::Robot, String>)
    ensures
        r is Ok <==> robots_parse_ok(user_agent@, raw@),
{
    match texting_robots::Robot::new(user_agent, raw.as_bytes()) {
        Ok(robot) => Ok(robot),
        Err(error) => Err(error.to_string()),
    }
}

/// The user agent the table is built for: the configured one, or `*`
/// where none is configured.
pub open spec fn chosen_agent(user_agent: Option<&str>) -> Seq<char> {
    match user_agent {
        Some(u) => u@,
        None => "*"@,
    }
}

/// Build the robots decision table for the configured user agent, falling
/// back to `*` where none is configured. The table comes back exactly when
/// the robots parser accepts the body for that agent; a malformed body is
/// reported with the user agent and the body that were used.
pub fn get_robot_rules(user_agent: Option<&str>, raw: &str) -> (r: Result<
    texting_robots::Robot,
    InvalidRobotRules,
>)
    ensures
        r is Ok <==> robots_parse_ok(chosen_agent(user_agent), raw@),
        r matches Err(e) ==> {
            &&& e.user_agent@ == chosen_agent(user_agent)
            &&& e.raw@ == raw@
        },
{
    let agent: &str = match user_agent {
        Some(u) => u,
        None => "*",
    };
    match robot_new(agent, raw) {
        Ok(robot) => Ok(robot),
        Err(message) => Err(
            InvalidRobotRules::new(agent.to_owned(), raw.to_owned(), message),
        ),
    }
}

} // verus!
