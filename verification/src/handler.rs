use vstd::prelude::*;
use vstd::utf8::{decode_utf8, valid_utf8};

use crate::service::Service;
use crate::text::{opt_view, same_text, string_from_utf8, utf8_error_text};

verus! {

/// Serves the requests of the API.
pub struct Controller {
    svc: Service,
}

impl Controller {
    pub fn new(svc: Service) -> (res: Controller) {
        Controller { svc }
    }

    /// The service the requests are handed to.
    pub fn service(&self) -> (res: &Service) {
        &self.svc
    }
}

/// The parts of a command form, told apart by their names.
#[derive(Debug, PartialEq, Eq)]
pub enum FormField {
    Name,
    ContractType,
    Env,
    Command,
    /// An uploaded file.
    File,
    /// A part the form does not use.
    Other,
}

/// The part named `param_name`: `name`, `contract_type`, `env`,
/// `command` and `file` are known; any other name is of no use.
pub fn form_field(param_name: &str) -> (res: FormField)
    ensures
        res == (if param_name@ == "name"@ {
            FormField::Name
        } else if param_name@ == "contract_type"@ {
            FormField::ContractType
        } else if param_name@ == "env"@ {
            FormField::Env
        } else if param_name@ == "command"@ {
            FormField::Command
        } else if param_name@ == "file"@ {
            FormField::File
        } else {
            FormField::Other
        }),
{
    if same_text(param_name, "name") {
        FormField::Name
    } else if same_text(param_name, "contract_type") {
        FormField::ContractType
    } else if same_text(param_name, "env") {
        FormField::Env
    } else if same_text(param_name, "command") {
        FormField::Command
    } else if same_text(param_name, "file") {
        FormField::File
    } else {
        FormField::Other
    }
}

/// Why a command form was refused.
#[derive(Debug, PartialEq, Eq)]
pub enum FormError {
    /// A text part is not UTF-8: the text of the decoding error.
    NotUtf8(String),
    /// The form has no command ("command line is null").
    MissingCommand,
}

impl FormError {
    /// The message that describes the error.
    pub fn message(&self) -> (res: String)
        ensures
            self matches FormError::NotUtf8(m) ==> res@ == m@,
            self is MissingCommand ==> res@ == "command line is null"@,
    {
        match self {
            FormError::NotUtf8(m) => m.clone(),
            FormError::MissingCommand => String::from_str("command line is null"),
        }
    }
}

/// The text parts of a command form received so far.
pub struct CommandForm {
    pub name: Option<String>,
    pub contract_type: Option<String>,
    pub env: Option<String>,
    pub command: Option<String>,
}

/// The text carried by `content`, when it is UTF-8.
pub open spec fn text_of(content: Seq<u8>) -> Option<Seq<char>> {
    if valid_utf8(content) {
        Some(decode_utf8(content))
    } else {
        None
    }
}

impl CommandForm {
    /// A form with no part received.
    pub fn new() -> (res: CommandForm)
        ensures
            res.name is None,
            res.contract_type is None,
            res.env is None,
            res.command is None,
    {
        CommandForm { name: None, contract_type: None, env: None, command: None }
    }

    /// Records the content of a text part; a later part replaces an earlier
    /// one of the same name. Content that is not UTF-8 is refused and
    /// leaves the form as it was.
    pub fn fill(&mut self, field: FormField, content: Vec<u8>) -> (res: Result<(), FormError>)
        requires
            field == FormField::Name || field == FormField::ContractType || field == FormField::Env
                || field == FormField::Command,
        ensures
            res is Ok <==> valid_utf8(content@),
            !valid_utf8(content@) ==> (res matches Err(FormError::NotUtf8(m)) && m@ == utf8_error_text(content@)),
            res is Ok ==> {
                &&& field == FormField::Name ==> opt_view(final(self).name) == text_of(content@)
                &&& field != FormField::Name ==> final(self).name == old(self).name
                &&& field == FormField::ContractType ==> opt_view(final(self).contract_type) == text_of(content@)
                &&& field != FormField::ContractType ==> final(self).contract_type == old(self).contract_type
                &&& field == FormField::Env ==> opt_view(final(self).env) == text_of(content@)
                &&& field != FormField::Env ==> final(self).env == old(self).env
                &&& field == FormField::Command ==> opt_view(final(self).command) == text_of(content@)
                &&& field != FormField::Command ==> final(self).command == old(self).command
            },
            res is Err ==> *final(self) == *old(self),
    {
        match string_from_utf8(content) {
            Err(m) => Err(FormError::NotUtf8(m)),
            Ok(text) => {
                match field {
                    FormField::Name => self.name = Some(text),
                    FormField::ContractType => self.contract_type = Some(text),
                    FormField::Env => self.env = Some(text),
                    _ => self.command = Some(text),
                }
                Ok(())
            },
        }
    }

    /// The command line of a complete form; a form without one is refused.
    pub fn command_line(&self) -> (res: Result<&String, FormError>)
        ensures
            match self.command {
                Some(c) => res == Ok::<&String, FormError>(&c),
                None => res == Err::<&String, FormError>(FormError::MissingCommand),
            },
    {
        match &self.command {
            Some(c) => Ok(c),
            None => Err(FormError::MissingCommand),
        }
    }
}

} // verus!
