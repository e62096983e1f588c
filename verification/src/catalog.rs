//! The static catalog of well-known ports.

use vstd::prelude::*;

verus! {

/// The label that the catalog holds for `port`, if it holds one.
pub open spec fn catalog_label(port: u16) -> Option<Seq<char>> {
    match port {
        21 => Some("FTP"@),
        22 => Some("SSH"@),
        23 => Some("Telnet"@),
        25 => Some("SMTP"@),
        53 => Some("DNS"@),
        80 => Some("HTTP"@),
        110 => Some("POP3"@),
        143 => Some("IMAP"@),
        443 => Some("HTTPS"@),
        465 => Some("SMTPS"@),
        587 => Some("SMTP-TLS"@),
        993 => Some("IMAPS"@),
        995 => Some("POP3S"@),
        3306 => Some("MySQL"@),
        3389 => Some("RDP"@),
        5432 => Some("PostgreSQL"@),
        6379 => Some("Redis"@),
        8080 => Some("HTTP-Alt"@),
        8443 => Some("HTTPS-Alt"@),
        27017 => Some("MongoDB"@),
        _ => None,
    }
}

/// The catalog entry for `port` as static text.
fn catalog_entry(port: u16) -> (entry: Option<&'static str>)
    ensures
        match entry {
            Some(text) => catalog_label(port) == Some(text@),
            None => catalog_label(port) is None,
        },
{
    match port {
        21 => Some("FTP"),
        22 => Some("SSH"),
        23 => Some("Telnet"),
        25 => Some("SMTP"),
        53 => Some("DNS"),
        80 => Some("HTTP"),
        110 => Some("POP3"),
        143 => Some("IMAP"),
        443 => Some("HTTPS"),
        465 => Some("SMTPS"),
        587 => Some("SMTP-TLS"),
        993 => Some("IMAPS"),
        995 => Some("POP3S"),
        3306 => Some("MySQL"),
        3389 => Some("RDP"),
        5432 => Some("PostgreSQL"),
        6379 => Some("Redis"),
        8080 => Some("HTTP-Alt"),
        8443 => Some("HTTPS-Alt"),
        27017 => Some("MongoDB"),
        _ => None,
    }
}

/// Looks up the service commonly found on `port`.
///
/// The lookup is total: a port outside the catalog gives `None`, never an
/// empty label.
pub fn get_service_name(port: u16) -> (name: Option<String>)
    ensures
        match name {
            Some(label) => catalog_label(port) == Some(label@),
            None => catalog_label(port) is None,
        },
{
    match catalog_entry(port) {
        Some(text) => Some(text.to_owned()),
        None => None,
    }
}

} // verus!
