use vstd::prelude::*;

verus! {

/// A tenant business. It owns its reservations: each reservation row holds
/// this property's identifier as its foreign key.
#[derive(Clone, Debug)]
pub struct Property {
    pub property_id: u128,
    pub property_name: String,
    pub property_password: String,
    pub property_email: String,
    pub property_phone: String,
}

impl Property {
    /// Rebuilds a property from the columns of one stored row, in column
    /// order: identifier, name, password hash, email, phone.
    pub fn build(row: (u128, String, String, String, String)) -> (r: Property)
        ensures
            r == (Property {
                property_id: row.0,
                property_name: row.1,
                property_password: row.2,
                property_email: row.3,
                property_phone: row.4,
            }),
    {
        let (property_id, property_name, property_password, property_email, property_phone) = row;
        Property { property_id, property_name, property_password, property_email, property_phone }
    }
}

/// A property row to insert at registration; the identifier is chosen by
/// the caller and the password arrives already hashed.
#[derive(Clone, Debug)]
pub struct NewProperty {
    pub property_id: u128,
    pub property_name: String,
    pub property_password: String,
    pub property_email: String,
    pub property_phone: String,
}

impl NewProperty {
    pub fn new(
        property_id: u128,
        property_name: String,
        property_password: String,
        property_email: String,
        property_phone: String,
    ) -> (r: NewProperty)
        ensures
            r == (NewProperty {
                property_id,
                property_name,
                property_password,
                property_email,
                property_phone,
            }),
    {
        NewProperty { property_id, property_name, property_password, property_email, property_phone }
    }
}

/// A staff account of a property, as storage returns it.
#[derive(Clone, Debug)]
pub struct PropertyUsers {
    pub user_id: i32,
    pub user_name: String,
    pub user_password: String,
    pub user_role: i32,
    pub property_id: u128,
}

impl PropertyUsers {
    pub fn new(
        user_id: i32,
        user_name: String,
        user_password: String,
        user_role: i32,
        property_id: u128,
    ) -> (r: PropertyUsers)
        ensures
            r == (PropertyUsers { user_id, user_name, user_password, user_role, property_id }),
    {
        PropertyUsers { user_id, user_name, user_password, user_role, property_id }
    }
}

/// A staff account to insert; the identifier is assigned by storage.
#[derive(Clone, Debug)]
pub struct NewPropertyUser {
    pub user_name: String,
    pub user_password: String,
    pub user_role: i32,
    pub property_id: u128,
}

impl NewPropertyUser {
    pub fn new(user_name: String, user_password: String, user_role: i32, property_id: u128) -> (r:
        NewPropertyUser)
        ensures
            r == (NewPropertyUser { user_name, user_password, user_role, property_id }),
    {
        NewPropertyUser { user_name, user_password, user_role, property_id }
    }
}

/// The closed set of staff roles.
#[derive(Clone, Copy, Debug, PartialEq, Eq, Structural)]
pub enum Role {
    Dev,
    PropertyAdmin,
    PropertyManager,
    PropertyUser,
}

/// One row of the role table: a role identifier and its name.
#[derive(Clone, Debug)]
pub struct Roles {
    pub role_id: i32,
    pub role_name: String,
}

impl Roles {
    pub fn new(role_id: i32, role_name: String) -> (r: Roles)
        ensures
            r == (Roles { role_id, role_name }),
    {
        Roles { role_id, role_name }
    }
}

} // verus!
