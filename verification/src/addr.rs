//! The address of an upstream server, as the user wrote it, and the paths
//! of the pages that show that server.

use vstd::prelude::*;
use vstd::string::StringExecFns;

verus! {

/// The address of an upstream server: the two texts are kept as given and
/// never resolved, so that two spellings of one endpoint are two addresses.
#[derive(Debug, PartialEq, Eq, Hash)]
pub struct ConsoleAddr {
    pub ip: String,
    pub port: String,
}

impl View for ConsoleAddr {
    type V = (Seq<char>, Seq<char>);

    open spec fn view(&self) -> (Seq<char>, Seq<char>) {
        (self.ip@, self.port@)
    }
}

impl Clone for ConsoleAddr {
    fn clone(&self) -> (r: Self)
        ensures
            r == *self,
    {
        ConsoleAddr { ip: self.ip.clone(), port: self.port.clone() }
    }
}

/// The address that the entry form shows before the user wrote any.
pub const DEFAULT_IP: &'static str = "127.0.0.1";

/// The port that the entry form shows before the user wrote any.
pub const DEFAULT_PORT: &'static str = "6669";

impl Default for ConsoleAddr {
    fn default() -> (r: Self)
        ensures
            r@ == (DEFAULT_IP@, DEFAULT_PORT@),
    {
        ConsoleAddr { ip: DEFAULT_IP.to_owned(), port: DEFAULT_PORT.to_owned() }
    }
}

/// The text of one decimal digit.
pub open spec fn digit_text(d: int) -> Seq<char> {
    if d == 0 {
        "0"@
    } else if d == 1 {
        "1"@
    } else if d == 2 {
        "2"@
    } else if d == 3 {
        "3"@
    } else if d == 4 {
        "4"@
    } else if d == 5 {
        "5"@
    } else if d == 6 {
        "6"@
    } else if d == 7 {
        "7"@
    } else if d == 8 {
        "8"@
    } else {
        "9"@
    }
}

/// The decimal numeral of `n`, without leading zeros.
pub open spec fn decimal_text(n: nat) -> Seq<char>
    decreases n,
{
    if n < 10 {
        digit_text(n as int)
    } else {
        decimal_text(n / 10) + digit_text((n % 10) as int)
    }
}

fn digit(d: u64) -> (r: &'static str)
    requires
        d < 10,
    ensures
        r@ == digit_text(d as int),
{
    if d == 0 {
        "0"
    } else if d == 1 {
        "1"
    } else if d == 2 {
        "2"
    } else if d == 3 {
        "3"
    } else if d == 4 {
        "4"
    } else if d == 5 {
        "5"
    } else if d == 6 {
        "6"
    } else if d == 7 {
        "7"
    } else if d == 8 {
        "8"
    } else {
        "9"
    }
}

/// Writes `n` as a decimal numeral.
pub fn decimal(n: u64) -> (r: String)
    ensures
        r@ == decimal_text(n as nat),
    decreases n,
{
    if n < 10 {
        digit(n).to_owned()
    } else {
        decimal(n / 10).concat(digit(n % 10))
    }
}

/// The path under which the pages of the server at `addr` stand.
pub open spec fn console_path(addr: (Seq<char>, Seq<char>)) -> Seq<char> {
    "/console/"@ + addr.0 + "/"@ + addr.1
}

/// The path of the page that lists the tasks of the server at `addr`.
pub open spec fn tasks_path(addr: (Seq<char>, Seq<char>)) -> Seq<char> {
    console_path(addr) + "/tasks"@
}

/// The path of the page that lists the resources of the server at `addr`.
pub open spec fn resources_path(addr: (Seq<char>, Seq<char>)) -> Seq<char> {
    console_path(addr) + "/resources"@
}

/// The path of the page of the task `id` of the server at `addr`.
pub open spec fn task_path(addr: (Seq<char>, Seq<char>), id: u64) -> Seq<char> {
    tasks_path(addr) + "/"@ + decimal_text(id as nat)
}

/// The path of the page of the resource `id` of the server at `addr`.
pub open spec fn resource_path(addr: (Seq<char>, Seq<char>), id: u64) -> Seq<char> {
    resources_path(addr) + "/"@ + decimal_text(id as nat)
}

/// The path of the entry form, filled in with `addr`.
pub open spec fn form_path(addr: (Seq<char>, Seq<char>)) -> Seq<char> {
    "/?ip="@ + addr.0 + "&port="@ + addr.1
}

/// The text that names `addr`: its two parts with a colon between.
pub open spec fn addr_text(addr: (Seq<char>, Seq<char>)) -> Seq<char> {
    addr.0 + ":"@ + addr.1
}

impl ConsoleAddr {
    /// The address as one text, `ip:port`.
    pub fn to_text(&self) -> (r: String)
        ensures
            r@ == addr_text(self@),
    {
        let mut s = self.ip.clone();
        s.append(":");
        s.append(self.port.as_str());
        s
    }

    fn console_path(&self) -> (r: String)
        ensures
            r@ == console_path(self@),
    {
        let mut s = "/console/".to_owned();
        s.append(self.ip.as_str());
        s.append("/");
        s.append(self.port.as_str());
        s
    }

    /// The path of the page that lists the tasks of this server.
    pub fn tasks_path(&self) -> (r: String)
        ensures
            r@ == tasks_path(self@),
    {
        let mut s = self.console_path();
        s.append("/tasks");
        s
    }

    /// The path of the page that lists the resources of this server.
    pub fn resources_path(&self) -> (r: String)
        ensures
            r@ == resources_path(self@),
    {
        let mut s = self.console_path();
        s.append("/resources");
        s
    }

    /// The path of the page of the task `id` of this server.
    pub fn task_path(&self, id: u64) -> (r: String)
        ensures
            r@ == task_path(self@, id),
    {
        let mut s = self.tasks_path();
        s.append("/");
        s.append(decimal(id).as_str());
        s
    }

    /// The path of the page of the resource `id` of this server.
    pub fn resource_path(&self, id: u64) -> (r: String)
        ensures
            r@ == resource_path(self@, id),
    {
        let mut s = self.resources_path();
        s.append("/");
        s.append(decimal(id).as_str());
        s
    }

    /// The path of the entry form, filled in with this address.
    pub fn form_path(&self) -> (r: String)
        ensures
            r@ == form_path(self@),
    {
        let mut s = "/?ip=".to_owned();
        s.append(self.ip.as_str());
        s.append("&port=");
        s.append(self.port.as_str());
        s
    }
}

} // verus!
