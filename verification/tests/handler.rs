use contract_runtime::handler::{form_field, CommandForm, Controller, FormError, FormField};
use contract_runtime::service::Service;

#[test]
fn form_parts_by_name() {
    assert_eq!(form_field("name"), FormField::Name);
    assert_eq!(form_field("contract_type"), FormField::ContractType);
    assert_eq!(form_field("env"), FormField::Env);
    assert_eq!(form_field("command"), FormField::Command);
    assert_eq!(form_field("file"), FormField::File);
    assert_eq!(form_field("Command"), FormField::Other);
}

#[test]
fn command_form_collects_text_parts() {
    let mut form = CommandForm::new();
    assert_eq!(form.command_line(), Err(FormError::MissingCommand));
    assert_eq!(form.fill(FormField::Name, b"demo".to_vec()), Ok(()));
    assert_eq!(form.fill(FormField::Command, b"ls".to_vec()), Ok(()));
    assert_eq!(form.fill(FormField::Command, b"run all".to_vec()), Ok(()));
    assert_eq!(
        form.fill(FormField::Env, vec![0xff]),
        Err(FormError::NotUtf8(String::from("invalid utf-8 sequence of 1 bytes from index 0")))
    );
    assert_eq!(form.env, None);
    assert_eq!(form.name.as_deref(), Some("demo"));
    assert_eq!(form.command_line().map(|c| c.as_str()), Ok("run all"));
}

#[test]
fn controller_holds_its_service() {
    let ctrl = Controller::new(Service::new());
    assert!(ctrl.service().build("other", "p").is_err());
}
