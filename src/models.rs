//! The identity provider's reply to a login, as far as this gateway models it.
use vstd::prelude::*;

verus! {

/// Declared so that the provider's free-form fields can be carried through.
#[verifier::external_type_specification]
#[verifier::external_body]
pub struct ExJsonValue(serde_json::Value);

/// The whole reply document.
#[derive(Debug)]
pub struct Root {
    pub command: String,
    pub error: i64,
    pub message: String,
    pub data: Data,
    pub connection: Connection,
    pub token: String,
    pub fromdomain: String,
    pub worktime: String,
}

/// The `data` member of the reply.
#[derive(Debug)]
pub struct Data {
    pub user_fullname: String,
    pub user: User,
    pub front: Front,
}

/// The signed-in user, as the provider describes them.
#[derive(Debug)]
pub struct User {
    pub user_id: String,
    pub user_fullname: String,
    pub user_name: String,
    pub user_surname: String,
    pub user_patronymic: String,
    pub user_mail: String,
    pub user_phone: String,
    pub user_avatar: String,
    pub user_balance: i64,
    pub user_type: i64,
    pub user_status: i64,
    pub user_role_id: i64,
    pub user_gender: i64,
    pub user_birthday: serde_json::Value,
    pub user_search_disable: String,
    pub user_search_disable_text: String,
    pub user_search_disable_fulltext: String,
    pub token: String,
    pub ghost_token: String,
    pub user_uid: String,
    pub auth_key: String,
    pub is_demo: i64,
    pub show_tabbar: bool,
    pub apartment: Vec<Apartment>,
    pub stage: i64,
}

/// One apartment that the user has access to.
#[derive(Debug)]
pub struct Apartment {
    pub id: String,
    pub uid: String,
    pub title: String,
    pub custom_title: String,
    pub user_title: String,
    pub here: i64,
    pub user_token: String,
    pub complex_id: String,
    pub complex_title: String,
    pub building_id: String,
    pub building_address: String,
    pub buildings_properties_rent_available: bool,
    pub show_tabbar: bool,
    pub stage: i64,
    pub accept_enabled: i64,
    pub sip: String,
    pub apartment_request: serde_json::Value,
    pub user_search_disable: String,
    pub accept_data: serde_json::Value,
}

/// The client application that the provider reports.
#[derive(Default, Debug, Clone, PartialEq)]
pub struct Front {
    pub title: String,
    pub type_field: String,
    pub app: String,
}

/// Addresses that the provider saw.
#[derive(Default, Debug, Clone, PartialEq)]
pub struct Connection {
    pub server_real_ip: String,
    pub user_ip: String,
}

} // verus!
