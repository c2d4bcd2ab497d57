//! The partial-update command builder: turns a sparse update request into a
//! parameterized mutation command over exactly the fields supplied, with the
//! identifier used only in the filter clause and bound last.

use vstd::prelude::*;
use crate::ids::{parse_user_id, uuid_value};
use crate::text::{blank, is_blank};

verus! {

/// A sparse creation or update request for the user resource, as a client
/// sends it: the identifier as text, both other fields optional.
pub struct NewUser {
    pub user_id: String,
    pub username: Option<String>,
    pub email: Option<String>,
}

/// The columns a partial update may assign, in their fixed declared order:
/// username first, then email. The identifier column is never assignable.
#[derive(PartialEq, Eq, Structural, Clone, Copy, Debug)]
pub enum UpdateColumn {
    Username,
    Email,
}

/// One assignment of the update's `SET` list.
pub struct Assignment {
    pub column: UpdateColumn,
    pub value: String,
}

/// Ghost image of an assignment.
pub ghost struct AssignmentV {
    pub column: UpdateColumn,
    pub value: Seq<char>,
}

impl View for Assignment {
    type V = AssignmentV;

    open spec fn view(&self) -> AssignmentV {
        AssignmentV { column: self.column, value: self.value@ }
    }
}

/// A safe partial-update command: the ordered assignment list, and the
/// identifier, which is used only to filter the row and is bound after
/// every assignment.
pub struct UpdateCommand {
    pub assignments: Vec<Assignment>,
    pub user_id: u128,
}

/// Ghost image of a command.
pub ghost struct CommandV {
    pub assignments: Seq<AssignmentV>,
    pub user_id: u128,
}

impl View for UpdateCommand {
    type V = CommandV;

    open spec fn view(&self) -> CommandV {
        CommandV { assignments: self.assignments@.map_values(|a: Assignment| a@), user_id: self.user_id }
    }
}

impl UpdateCommand {
    /// Parameter slot of the identifier: always the one after the last
    /// assignment, so the filter never shares a slot with the `SET` list.
    pub fn identifier_slot(&self) -> (r: usize)
        requires
            self.assignments@.len() < usize::MAX,
        ensures
            r == self.assignments@.len() + 1,
    {
        self.assignments.len() + 1
    }
}

/// Why a request was rejected before any store access.
#[derive(PartialEq, Eq, Structural, Clone, Copy, Debug)]
pub enum UpdateRejection {
    /// The identifier text does not parse as an identifier.
    InvalidIdentifier,
    /// No optional field was supplied non-blank.
    NoFieldsProvided,
}

/// What the builder returns: a command, or the rejection.
pub ghost enum BuildV {
    Command(CommandV),
    Rejected(UpdateRejection),
}

/// An optional field counts as supplied only when it is present and does
/// not trim to nothing; a blank value means "not provided".
pub open spec fn qualifies(f: Option<Seq<char>>) -> bool {
    match f {
        Some(v) => !is_blank(v),
        None => false,
    }
}

/// The value of a qualifying field.
pub open spec fn field_value(f: Option<Seq<char>>) -> Seq<char> {
    match f {
        Some(v) => v,
        None => Seq::empty(),
    }
}

/// The assignment list the builder owes: the qualifying fields in declared
/// column order, username before email.
pub open spec fn expected_assignments(name: Option<Seq<char>>, mail: Option<Seq<char>>) -> Seq<
    AssignmentV,
> {
    let with_name: Seq<AssignmentV> = if qualifies(name) {
        seq![AssignmentV { column: UpdateColumn::Username, value: field_value(name) }]
    } else {
        Seq::empty()
    };
    let with_mail: Seq<AssignmentV> = if qualifies(mail) {
        seq![AssignmentV { column: UpdateColumn::Email, value: field_value(mail) }]
    } else {
        Seq::empty()
    };
    with_name + with_mail
}

/// The builder's whole behaviour: an unparsable identifier is rejected
/// first; then a request with no qualifying field; otherwise the command
/// holds exactly the qualifying assignments and filters by the identifier.
pub open spec fn build_spec(id_text: Seq<char>, name: Option<Seq<char>>, mail: Option<Seq<char>>) -> BuildV {
    match uuid_value(id_text) {
        None => BuildV::Rejected(UpdateRejection::InvalidIdentifier),
        Some(id) => if !qualifies(name) && !qualifies(mail) {
            BuildV::Rejected(UpdateRejection::NoFieldsProvided)
        } else {
            BuildV::Command(CommandV { assignments: expected_assignments(name, mail), user_id: id })
        },
    }
}

/// Ghost image of an optional field.
pub open spec fn opt_view(f: Option<String>) -> Option<Seq<char>> {
    match f {
        Some(v) => Some(v@),
        None => None,
    }
}

/// Ghost image of a build result.
pub open spec fn build_result_view(r: Result<UpdateCommand, UpdateRejection>) -> BuildV {
    match r {
        Ok(cmd) => BuildV::Command(cmd@),
        Err(e) => BuildV::Rejected(e),
    }
}

/// Builds the partial-update command for one identifier and the two
/// optional fields, exactly as `build_spec` describes.
pub fn build_update_command(
    id_text: &str,
    username: &Option<String>,
    email: &Option<String>,
) -> (r: Result<UpdateCommand, UpdateRejection>)
    ensures
        build_result_view(r) == build_spec(id_text@, opt_view(*username), opt_view(*email)),
{
    let id = match parse_user_id(id_text) {
        Some(id) => id,
        None => {
            return Err(UpdateRejection::InvalidIdentifier);
        },
    };
    let mut assignments: Vec<Assignment> = Vec::new();
    match username {
        Some(name) => {
            if !blank(name.as_str()) {
                assignments.push(Assignment { column: UpdateColumn::Username, value: name.clone() });
            }
        },
        None => {},
    }
    match email {
        Some(mail) => {
            if !blank(mail.as_str()) {
                assignments.push(Assignment { column: UpdateColumn::Email, value: mail.clone() });
            }
        },
        None => {},
    }
    if assignments.len() == 0 {
        return Err(UpdateRejection::NoFieldsProvided);
    }
    let cmd = UpdateCommand { assignments, user_id: id };
    proof {
        assert(cmd@.assignments =~= expected_assignments(opt_view(*username), opt_view(*email)));
    }
    Ok(cmd)
}

/// A request that supplies nothing non-blank is rejected with
/// `NoFieldsProvided` before any store access, whatever its identifier
/// parses to.
pub proof fn lemma_no_fields_rejected(id_text: Seq<char>, name: Option<Seq<char>>, mail: Option<Seq<char>>)
    requires
        !qualifies(name),
        !qualifies(mail),
        uuid_value(id_text) is Some,
    ensures
        build_spec(id_text, name, mail) == BuildV::Rejected(UpdateRejection::NoFieldsProvided),
{
}

/// A request that supplies only the email yields a command whose assignment
/// list is exactly one email assignment, and whose identifier stands only
/// in the filter.
pub proof fn lemma_email_only_shape(id_text: Seq<char>, name: Option<Seq<char>>, mail: Option<Seq<char>>)
    requires
        !qualifies(name),
        qualifies(mail),
        uuid_value(id_text) is Some,
    ensures
        build_spec(id_text, name, mail) matches BuildV::Command(cmd)
            && cmd.assignments.len() == 1
            && cmd.assignments[0].column == UpdateColumn::Email
            && cmd.assignments[0].value == field_value(mail)
            && cmd.user_id == uuid_value(id_text).unwrap(),
{
    assert(expected_assignments(name, mail) =~= seq![
        AssignmentV { column: UpdateColumn::Email, value: field_value(mail) },
    ]);
}

} // verus!
