use vstd::prelude::*;

verus! {

pub const PASSWORD: i32 = 1;

pub const TOKEN: i32 = 2;

pub const API_KEY: i32 = 3;

pub const SSH_KEY: i32 = 4;

/// The four kinds of secret the vault stores: a closed set, so that no
/// unknown type id slips through.
#[derive(Clone, Copy, Debug, PartialEq, Eq, Structural)]
pub enum KeyType {
    Password,
    Token,
    ApiKey,
    SshKeyPair,
}

/// The kind a stored type id stands for, if any.
pub open spec fn kind_of(key_type: i32) -> Option<KeyType> {
    if key_type == PASSWORD {
        Some(KeyType::Password)
    } else if key_type == TOKEN {
        Some(KeyType::Token)
    } else if key_type == API_KEY {
        Some(KeyType::ApiKey)
    } else if key_type == SSH_KEY {
        Some(KeyType::SshKeyPair)
    } else {
        None
    }
}

/// The type id under which a kind is stored.
pub open spec fn id_of(kind: KeyType) -> i32 {
    match kind {
        KeyType::Password => PASSWORD,
        KeyType::Token => TOKEN,
        KeyType::ApiKey => API_KEY,
        KeyType::SshKeyPair => SSH_KEY,
    }
}

impl KeyType {
    /// Decodes a stored type id; ids outside the four known ones have no kind.
    pub fn from_id(key_type: i32) -> (kind: Option<KeyType>)
        ensures
            kind == kind_of(key_type),
    {
        if key_type == PASSWORD {
            Some(KeyType::Password)
        } else if key_type == TOKEN {
            Some(KeyType::Token)
        } else if key_type == API_KEY {
            Some(KeyType::ApiKey)
        } else if key_type == SSH_KEY {
            Some(KeyType::SshKeyPair)
        } else {
            None
        }
    }

    pub fn id(self) -> (key_type: i32)
        ensures
            key_type == id_of(self),
            kind_of(key_type) == Some(self),
    {
        match self {
            KeyType::Password => PASSWORD,
            KeyType::Token => TOKEN,
            KeyType::ApiKey => API_KEY,
            KeyType::SshKeyPair => SSH_KEY,
        }
    }
}

/// The name a key type is listed under.
pub open spec fn type_label(key_type: i32) -> Seq<char> {
    if key_type == PASSWORD {
        "Password"@
    } else if key_type == TOKEN {
        "Token"@
    } else if key_type == API_KEY {
        "API Key"@
    } else if key_type == SSH_KEY {
        "SSH Key"@
    } else {
        "Unknown"@
    }
}

pub fn get_type_name(key_type: i32) -> (name: &'static str)
    ensures
        name@ == type_label(key_type),
{
    if key_type == PASSWORD {
        "Password"
    } else if key_type == TOKEN {
        "Token"
    } else if key_type == API_KEY {
        "API Key"
    } else if key_type == SSH_KEY {
        "SSH Key"
    } else {
        "Unknown"
    }
}

/// The badge class shown for a key type.
pub open spec fn type_class(key_type: i32) -> Seq<char> {
    if key_type == PASSWORD {
        "bg-success"@
    } else if key_type == TOKEN {
        "bg-danger"@
    } else if key_type == API_KEY {
        "bg-warning"@
    } else if key_type == SSH_KEY {
        "bg-info"@
    } else {
        "bg-secondary"@
    }
}

pub fn get_type_class(key_type: i32) -> (class: &'static str)
    ensures
        class@ == type_class(key_type),
{
    if key_type == PASSWORD {
        "bg-success"
    } else if key_type == TOKEN {
        "bg-danger"
    } else if key_type == API_KEY {
        "bg-warning"
    } else if key_type == SSH_KEY {
        "bg-info"
    } else {
        "bg-secondary"
    }
}

} // verus!
