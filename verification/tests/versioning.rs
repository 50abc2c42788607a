//! Records written under one struct layout must decode under a newer layout:
//! a renamed binding keyed by the same field name still decodes, and a field
//! that is absent in the stored bytes takes its declared default.
use dbless::Database;
use dbless::TableMut;
use serde::de::VariantAccess;
use serde::ser::SerializeStruct;

struct UserV1 {
    name: String,
    pass: String,
}

impl serde::Serialize for UserV1 {
    fn serialize<S: serde::Serializer>(&self, serializer: S) -> Result<S::Ok, S::Error> {
        let mut st = serializer.serialize_struct("UserV1", 2)?;
        st.serialize_field("name", &self.name)?;
        st.serialize_field("pass", &self.pass)?;
        st.end()
    }
}

#[derive(PartialEq, Debug)]
struct UserV2 {
    username: String,
    role: Role,
}

impl serde::Serialize for UserV2 {
    fn serialize<S: serde::Serializer>(&self, serializer: S) -> Result<S::Ok, S::Error> {
        let mut st = serializer.serialize_struct("UserV2", 2)?;
        st.serialize_field("name", &self.username)?;
        st.serialize_field("role", &self.role)?;
        st.end()
    }
}

struct UserV2Visitor;

impl<'de> serde::de::Visitor<'de> for UserV2Visitor {
    type Value = UserV2;

    fn expecting(&self, f: &mut std::fmt::Formatter<'_>) -> std::fmt::Result {
        f.write_str("struct UserV2")
    }

    fn visit_map<A: serde::de::MapAccess<'de>>(self, mut map: A) -> Result<UserV2, A::Error> {
        let mut username: Option<String> = None;
        let mut role: Option<Role> = None;
        while let Some(field) = map.next_key::<String>()? {
            match field.as_str() {
                "name" => {
                    username = Some(map.next_value()?);
                },
                "role" => {
                    role = Some(map.next_value()?);
                },
                _ => {
                    let _ = map.next_value::<serde::de::IgnoredAny>()?;
                },
            }
        }
        Ok(UserV2 {
            username: username.ok_or_else(|| serde::de::Error::missing_field("name"))?,
            role: role.unwrap_or_else(exiting_user_default_role),
        })
    }
}

impl<'de> serde::Deserialize<'de> for UserV2 {
    fn deserialize<D: serde::Deserializer<'de>>(deserializer: D) -> Result<UserV2, D::Error> {
        deserializer.deserialize_struct("UserV2", &["name", "role"], UserV2Visitor)
    }
}

#[derive(PartialEq, Debug)]
enum Role {
    Admin,
    Registered,
    Guest,
}

impl Default for Role {
    fn default() -> Role {
        Role::Guest
    }
}

const ROLE_VARIANTS: &[&str] = &["Admin", "Registered", "Guest"];

impl serde::Serialize for Role {
    fn serialize<S: serde::Serializer>(&self, serializer: S) -> Result<S::Ok, S::Error> {
        match self {
            Role::Admin => serializer.serialize_unit_variant("Role", 0, "Admin"),
            Role::Registered => serializer.serialize_unit_variant("Role", 1, "Registered"),
            Role::Guest => serializer.serialize_unit_variant("Role", 2, "Guest"),
        }
    }
}

struct RoleVisitor;

impl<'de> serde::de::Visitor<'de> for RoleVisitor {
    type Value = Role;

    fn expecting(&self, f: &mut std::fmt::Formatter<'_>) -> std::fmt::Result {
        f.write_str("enum Role")
    }

    fn visit_enum<A: serde::de::EnumAccess<'de>>(self, data: A) -> Result<Role, A::Error> {
        let (name, variant): (String, _) = data.variant()?;
        variant.unit_variant()?;
        match name.as_str() {
            "Admin" => Ok(Role::Admin),
            "Registered" => Ok(Role::Registered),
            "Guest" => Ok(Role::Guest),
            _ => Err(serde::de::Error::unknown_variant(name.as_str(), ROLE_VARIANTS)),
        }
    }
}

impl<'de> serde::Deserialize<'de> for Role {
    fn deserialize<D: serde::Deserializer<'de>>(deserializer: D) -> Result<Role, D::Error> {
        deserializer.deserialize_enum("Role", ROLE_VARIANTS, RoleVisitor)
    }
}

fn exiting_user_default_role() -> Role {
    Role::Registered
}

fn serde_on_db(db: &mut Database) {
    db.set(
        "user1",
        &UserV1 { name: "yui-915".to_owned(), pass: "123456".to_owned() },
    )
    .unwrap();

    db.set(
        "user2",
        &UserV2 { username: "guest-1273".to_owned(), role: Default::default() },
    )
    .unwrap();

    assert_eq!(
        db.get::<UserV2>("user1").unwrap().unwrap(),
        UserV2 { username: "yui-915".to_owned(), role: Role::Registered },
    );

    assert_eq!(
        db.get::<UserV2>("user2").unwrap().unwrap(),
        UserV2 { username: "guest-1273".to_owned(), role: Role::Guest },
    );
}

fn serde_on_table(db: &mut TableMut) {
    db.set(
        "user1",
        &UserV1 { name: "yui-915".to_owned(), pass: "123456".to_owned() },
    )
    .unwrap();

    db.set(
        "user2",
        &UserV2 { username: "guest-1273".to_owned(), role: Default::default() },
    )
    .unwrap();

    assert_eq!(
        db.get::<UserV2>("user1").unwrap().unwrap(),
        UserV2 { username: "yui-915".to_owned(), role: Role::Registered },
    );

    assert_eq!(
        db.get::<UserV2>("user2").unwrap().unwrap(),
        UserV2 { username: "guest-1273".to_owned(), role: Role::Guest },
    );
}

fn serde_all(mut db: Database) {
    db.delete_all_tables().unwrap();
    serde_on_db(&mut db);
    let t1l;
    {
        let mut t = db.table_mut("t1");
        assert_eq!(t.len().unwrap(), 0);
        serde_on_table(&mut t);
        t1l = t.len().unwrap();
    }
    let t2l;
    {
        let mut t = db.table_mut("t2");
        assert_eq!(t.len().unwrap(), 0);
        serde_on_table(&mut t);
        t2l = t.len().unwrap();
    }
    assert_eq!(t1l, t2l);
}

#[test]
fn serde() {
    serde_all(Database::open("/tmp/dbless_required_serde.db").unwrap());
    serde_all(Database::in_memory().unwrap());
}
