//! The etcd service of a development cluster.

use vstd::prelude::*;
use vstd::string::*;

use crate::util::id_map::{views, Entry};
use crate::util::lists::{image, map_all};
use crate::util::outside::{join, joined};
use crate::util::text::{append_decimal, decimal};

verus! {

/// A member of an etcd cluster.
#[derive(Debug, PartialEq, Eq)]
pub struct EtcdPeer {
    pub id: String,
    pub address: String,
    pub peer_port: u16,
}

/// The mathematical model of [`EtcdPeer`].
#[verifier::ext_equal]
pub struct EtcdPeerModel {
    pub id: Seq<char>,
    pub address: Seq<char>,
    pub peer_port: u16,
}

impl View for EtcdPeer {
    type V = EtcdPeerModel;

    open spec fn view(&self) -> EtcdPeerModel {
        EtcdPeerModel { id: self.id@, address: self.address@, peer_port: self.peer_port }
    }
}

impl Entry for EtcdPeer {
    fn duplicate(&self) -> (r: Self) {
        EtcdPeer {
            id: self.id.clone(),
            address: self.address.clone(),
            peer_port: self.peer_port,
        }
    }
}

/// How etcd is to be run.
#[derive(Debug, PartialEq, Eq)]
pub struct EtcdConfig {
    pub id: String,
    pub address: String,
    pub listen_address: String,
    pub port: u16,
    pub peer_port: u16,
    pub exporter_port: u16,
    pub unsafe_no_fsync: bool,
    /// The members of the cluster.
    pub provide_etcd: Option<Vec<EtcdPeer>>,
}

/// The mathematical model of [`EtcdConfig`].
#[verifier::ext_equal]
pub struct EtcdConfigModel {
    pub id: Seq<char>,
    pub address: Seq<char>,
    pub listen_address: Seq<char>,
    pub port: u16,
    pub peer_port: u16,
    pub exporter_port: u16,
    pub unsafe_no_fsync: bool,
    pub provide_etcd: Option<Seq<EtcdPeerModel>>,
}

impl View for EtcdConfig {
    type V = EtcdConfigModel;

    open spec fn view(&self) -> EtcdConfigModel {
        EtcdConfigModel {
            id: self.id@,
            address: self.address@,
            listen_address: self.listen_address@,
            port: self.port,
            peer_port: self.peer_port,
            exporter_port: self.exporter_port,
            unsafe_no_fsync: self.unsafe_no_fsync,
            provide_etcd: match self.provide_etcd {
                Some(peers) => Some(views(peers@)),
                None => None,
            },
        }
    }
}

/// Why etcd cannot be started.
#[derive(Debug, PartialEq, Eq)]
pub enum EtcdError {
    /// There is no binary at this path; this command enables it.
    BinaryNotFound(String, String),
}

impl EtcdError {
    /// The words of the error.
    pub fn message(&self) -> (r: String)
        ensures
            match *self {
                EtcdError::BinaryNotFound(path, command) => r@ == "etcd binary not found in "@
                    + path@ + "\nDid you enable etcd feature in `"@ + command@ + "`?"@,
            },
    {
        match self {
            EtcdError::BinaryNotFound(path, command) => {
                let mut s = String::new();
                s.append("etcd binary not found in ");
                s.append(path.as_str());
                s.append("\nDid you enable etcd feature in `");
                s.append(command.as_str());
                s.append("`?");
                assert(s@ =~= "etcd binary not found in "@ + path@
                    + "\nDid you enable etcd feature in `"@ + command@ + "`?"@);
                s
            },
        }
    }
}

/// The address of a service.
pub open spec fn url(address: Seq<char>, port: u16) -> Seq<char> {
    "http://"@ + address + ":"@ + decimal(port as nat)
}

/// A member, as it stands in the list of all members.
pub open spec fn member(p: EtcdPeerModel) -> Seq<char> {
    p.id + "="@ + url(p.address, p.peer_port)
}

/// The arguments of etcd that come from its addresses.
pub open spec fn address_args(c: EtcdConfigModel) -> Seq<Seq<char>> {
    seq![
        "--listen-client-urls"@,
        url(c.listen_address, c.port),
        "--advertise-client-urls"@,
        url(c.address, c.port),
        "--listen-peer-urls"@,
        url(c.listen_address, c.peer_port),
        "--initial-advertise-peer-urls"@,
        url(c.address, c.peer_port),
        "--listen-metrics-urls"@,
        url(c.listen_address, c.exporter_port),
    ]
}

/// The arguments of etcd that bound its work.
pub open spec fn limit_args() -> Seq<Seq<char>> {
    seq![
        "--max-txn-ops"@,
        "999999"@,
        "--max-request-bytes"@,
        "10485760"@,
        "--auto-compaction-mode"@,
        "periodic"@,
        "--auto-compaction-retention"@,
        "1m"@,
        "--snapshot-count"@,
        "10000"@,
    ]
}

/// The arguments of etcd that tell of its cluster.
pub open spec fn cluster_args(c: EtcdConfigModel) -> Seq<Seq<char>> {
    seq![
        "--name"@,
        c.id,
        "--initial-cluster-token"@,
        "risingwave-etcd"@,
        "--initial-cluster-state"@,
        "new"@,
        "--initial-cluster"@,
        joined(image(c.provide_etcd->0, |p: EtcdPeerModel| member(p)), ","@),
    ]
}

/// The arguments of etcd.
pub open spec fn command_args(c: EtcdConfigModel) -> Seq<Seq<char>> {
    address_args(c) + limit_args() + cluster_args(c) + if c.unsafe_no_fsync {
        seq!["--unsafe-no-fsync"@]
    } else {
        Seq::empty()
    }
}

fn url_text(address: &String, port: u16) -> (r: String)
    ensures
        r@ == url(address@, port),
{
    let mut s = String::new();
    s.append("http://");
    s.append(address.as_str());
    s.append(":");
    append_decimal(&mut s, port as u64);
    assert(s@ =~= url(address@, port));
    s
}

fn member_text(p: &EtcdPeer) -> (r: String)
    ensures
        r@ == member(p@),
{
    let mut s = p.id.clone();
    s.append("=");
    s.append(url_text(&p.address, p.peer_port).as_str());
    assert(s@ =~= member(p@));
    s
}

fn arg(args: &mut Vec<String>, s: &str)
    ensures
        views(final(args)@) == views(old(args)@).push(s@),
{
    args.push(String::from_str(s));
    assert(views(args@) =~= views(old(args)@).push(s@));
}

fn pair(args: &mut Vec<String>, name: &str, value: &str)
    ensures
        views(final(args)@) == views(old(args)@).push(name@).push(value@),
{
    arg(args, name);
    arg(args, value);
}

/// Runs etcd.
#[derive(Debug, PartialEq, Eq)]
pub struct EtcdService {
    pub config: EtcdConfig,
}

impl EtcdService {
    pub fn new(config: EtcdConfig) -> (r: Result<EtcdService, EtcdError>)
        ensures
            r is Ok,
            r->Ok_0.config == config,
    {
        Ok(EtcdService { config })
    }

    /// The name of the service.
    pub fn id(&self) -> (r: String)
        ensures
            r@ == self.config@.id,
    {
        self.config.id.clone()
    }

    /// Apply command args according to config
    pub fn apply_command_args(cmd: &mut Vec<String>, config: &EtcdConfig)
        requires
            config@.provide_etcd is Some,
        ensures
            views(final(cmd)@) == views(old(cmd)@) + command_args(config@),
    {
        let ghost before = views(cmd@);
        pair(cmd, "--listen-client-urls", url_text(&config.listen_address, config.port).as_str());
        pair(cmd, "--advertise-client-urls", url_text(&config.address, config.port).as_str());
        pair(cmd, "--listen-peer-urls", url_text(&config.listen_address, config.peer_port).as_str());
        pair(
            cmd,
            "--initial-advertise-peer-urls",
            url_text(&config.address, config.peer_port).as_str(),
        );
        pair(
            cmd,
            "--listen-metrics-urls",
            url_text(&config.listen_address, config.exporter_port).as_str(),
        );
        assert(views(cmd@) =~= before + address_args(config@));
        let ghost second = views(cmd@);
        pair(cmd, "--max-txn-ops", "999999");
        pair(cmd, "--max-request-bytes", "10485760");
        pair(cmd, "--auto-compaction-mode", "periodic");
        pair(cmd, "--auto-compaction-retention", "1m");
        pair(cmd, "--snapshot-count", "10000");
        assert(views(cmd@) =~= second + limit_args());
        let ghost third = views(cmd@);
        let members = match &config.provide_etcd {
            Some(peers) => {
                let f = |x: &EtcdPeer| -> (y: String)
                    ensures
                        y@ == member(x@),
                {
                    member_text(x)
                };
                map_all(peers, f, Ghost(|p: EtcdPeerModel| member(p)))
            },
            None => Vec::new(),
        };
        let members = join(&members, ",");
        pair(cmd, "--name", config.id.as_str());
        pair(cmd, "--initial-cluster-token", "risingwave-etcd");
        pair(cmd, "--initial-cluster-state", "new");
        pair(cmd, "--initial-cluster", members.as_str());
        assert(views(cmd@) =~= third + cluster_args(config@));
        if config.unsafe_no_fsync {
            arg(cmd, "--unsafe-no-fsync");
        }
        assert(views(cmd@) =~= before + command_args(config@));
    }

    /// The arguments with which etcd is run, with its data in `data_dir`; or, where there is no
    /// binary at `path`, which command enables it.
    pub fn execute(
        &self,
        path: &String,
        path_exists: bool,
        configure: &String,
        data_dir: &String,
    ) -> (r: Result<Vec<String>, EtcdError>)
        requires
            path_exists ==> self.config@.provide_etcd is Some,
        ensures
            if path_exists {
                r is Ok && views(r->Ok_0@) == command_args(self.config@) + seq![
                    "--data-dir"@,
                    data_dir@,
                ]
            } else {
                r matches Err(EtcdError::BinaryNotFound(p, c)) && p@ == path@ && c@ == configure@
            },
    {
        if !path_exists {
            return Err(EtcdError::BinaryNotFound(path.clone(), configure.clone()));
        }
        let mut cmd: Vec<String> = Vec::new();
        assert(views(cmd@) =~= Seq::empty());
        EtcdService::apply_command_args(&mut cmd, &self.config);
        pair(&mut cmd, "--data-dir", data_dir.as_str());
        assert(views(cmd@) =~= command_args(self.config@) + seq!["--data-dir"@, data_dir@]);
        Ok(cmd)
    }
}

/// An option stands among the arguments, with its value behind it.
pub open spec fn option_set(args: Seq<Seq<char>>, name: Seq<char>, value: Seq<char>) -> bool {
    exists|i: int|
        #![trigger args[i]]
        0 <= i && i + 1 < args.len() && args[i] == name && args[i + 1] == value
}

/// Etcd listens where it is told to listen and tells others the address at which it is to be reached: for
/// its clients at its port, for the other members at its peer port.
pub proof fn law_addresses_of_etcd(c: EtcdConfigModel)
    ensures
        ({
            let args = command_args(c);
            &&& option_set(
                args,
                "--listen-client-urls"@,
                "http://"@ + c.listen_address + ":"@ + decimal(c.port as nat),
            )
            &&& option_set(
                args,
                "--advertise-client-urls"@,
                "http://"@ + c.address + ":"@ + decimal(c.port as nat),
            )
            &&& option_set(
                args,
                "--listen-peer-urls"@,
                "http://"@ + c.listen_address + ":"@ + decimal(c.peer_port as nat),
            )
            &&& option_set(
                args,
                "--initial-advertise-peer-urls"@,
                "http://"@ + c.address + ":"@ + decimal(c.peer_port as nat),
            )
            &&& option_set(
                args,
                "--listen-metrics-urls"@,
                "http://"@ + c.listen_address + ":"@ + decimal(c.exporter_port as nat),
            )
        }),
{
    let args = command_args(c);
    let a = address_args(c);
    assert forall|i: int| 0 <= i < 10 implies #[trigger] args[i] == a[i] by {}
    assert(args[0] == a[0] && args[1] == a[1]);
    assert(args[2] == a[2] && args[3] == a[3]);
    assert(args[4] == a[4] && args[5] == a[5]);
    assert(args[6] == a[6] && args[7] == a[7]);
    assert(args[8] == a[8] && args[9] == a[9]);
}

/// Etcd is known by its name in a new cluster of all its members, each with its own name and address, and
/// writes through to the disk unless it is told not to.
pub proof fn law_cluster_of_etcd(c: EtcdConfigModel)
    requires
        c.provide_etcd is Some,
    ensures
        ({
            let args = command_args(c);
            let peers = c.provide_etcd->0;
            &&& option_set(args, "--name"@, c.id)
            &&& option_set(args, "--initial-cluster-state"@, "new"@)
            &&& exists|members: Seq<Seq<char>>| #[trigger]
                option_set(args, "--initial-cluster"@, joined(members, ","@)) && members.len()
                    == peers.len() && forall|i: int|
                    0 <= i < peers.len() ==> #[trigger] members[i] == peers[i].id + "="@ + (
                    "http://"@ + peers[i].address + ":"@ + decimal(peers[i].peer_port as nat))
            &&& c.unsafe_no_fsync ==> args.last() == "--unsafe-no-fsync"@
            &&& !c.unsafe_no_fsync ==> args.len() == 28
        }),
{
    let args = command_args(c);
    let b = cluster_args(c);
    let members = image(c.provide_etcd->0, |p: EtcdPeerModel| member(p));
    assert(args[20] == b[0] && args[21] == b[1]);
    assert(args[24] == b[4] && args[25] == b[5]);
    assert(args[26] == b[6] && args[27] == b[7]);
    assert(option_set(args, "--initial-cluster"@, joined(members, ","@)));
}

} // verus!
