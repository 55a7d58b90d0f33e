//! Service configuration.
use vstd::prelude::*;

verus! {

/// The root path of the service: `/api/{application}/{module}/{version}`.
pub open spec fn root_path_of(application: Seq<char>, module: Seq<char>, version: Seq<char>) -> Seq<char> {
    ((("/api/"@ + application).push('/') + module).push('/')) + version
}

/// The parts of the service's URL path.
#[derive(Debug, Clone)]
pub struct ServicePath {
    pub application: String,
    pub version: String,
    pub module: String,
    pub root_path: String,
}

impl ServicePath {
    pub fn new(application: String, module: String, version: String) -> (r: ServicePath)
        ensures
            r.application == application,
            r.module == module,
            r.version == version,
            r.root_path@ == root_path_of(application@, module@, version@),
    {
        proof {
            reveal_strlit("/");
        }
        let mut root = String::from_str("/api/");
        root.append(application.as_str());
        root.append("/");
        root.append(module.as_str());
        root.append("/");
        root.append(version.as_str());
        ServicePath { application, version, module, root_path: root }
    }
}

/// The configuration of the service.
#[derive(Debug, Clone)]
pub struct Config {
    pub service_path: ServicePath,
}

impl Config {
    pub fn new(application: String, module: String, version: String) -> (r: Config)
        ensures
            r.service_path.root_path@ == root_path_of(application@, module@, version@),
    {
        Config { service_path: ServicePath::new(application, module, version) }
    }

    pub fn get_root_path(&self) -> (r: String)
        ensures
            r == self.service_path.root_path,
    {
        self.service_path.root_path.clone()
    }
}

} // verus!
