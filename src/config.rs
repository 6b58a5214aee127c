use vstd::prelude::*;

verus! {

/// Settings of the notification service.
#[allow(non_snake_case)]
#[derive(Clone, Debug)]
pub struct Prj1AppConfig {
    url: String,
    applicationCode: String,
    name: String,
    surname: String,
    userId: String,
    actualUserId: String,
    x_lag_key: String,
}

/// The settings as character sequences.
pub struct ConfigView {
    pub url: Seq<char>,
    pub application_code: Seq<char>,
    pub name: Seq<char>,
    pub surname: Seq<char>,
    pub user_id: Seq<char>,
    pub actual_user_id: Seq<char>,
    pub x_lag_key: Seq<char>,
}

impl View for Prj1AppConfig {
    type V = ConfigView;

    closed spec fn view(&self) -> ConfigView {
        ConfigView {
            url: self.url@,
            application_code: self.applicationCode@,
            name: self.name@,
            surname: self.surname@,
            user_id: self.userId@,
            actual_user_id: self.actualUserId@,
            x_lag_key: self.x_lag_key@,
        }
    }
}

#[allow(non_snake_case)]
impl Prj1AppConfig {
    pub fn new(
        url: String,
        applicationCode: String,
        name: String,
        surname: String,
        userId: String,
        actualUserId: String,
        x_lag_key: String,
    ) -> (r: Prj1AppConfig)
        ensures
            r@.url == url@,
            r@.application_code == applicationCode@,
            r@.name == name@,
            r@.surname == surname@,
            r@.user_id == userId@,
            r@.actual_user_id == actualUserId@,
            r@.x_lag_key == x_lag_key@,
    {
        Prj1AppConfig { url, applicationCode, name, surname, userId, actualUserId, x_lag_key }
    }

    pub fn url(&self) -> (r: &str)
        ensures
            r@ == self@.url,
    {
        self.url.as_str()
    }

    pub fn application_code(&self) -> (r: &str)
        ensures
            r@ == self@.application_code,
    {
        self.applicationCode.as_str()
    }

    pub fn name(&self) -> (r: &str)
        ensures
            r@ == self@.name,
    {
        self.name.as_str()
    }

    pub fn surname(&self) -> (r: &str)
        ensures
            r@ == self@.surname,
    {
        self.surname.as_str()
    }

    pub fn user_id(&self) -> (r: &str)
        ensures
            r@ == self@.user_id,
    {
        self.userId.as_str()
    }

    pub fn actual_user_id(&self) -> (r: &str)
        ensures
            r@ == self@.actual_user_id,
    {
        self.actualUserId.as_str()
    }

    pub fn x_lag_key(&self) -> (r: &str)
        ensures
            r@ == self@.x_lag_key,
    {
        self.x_lag_key.as_str()
    }
}

} // verus!
