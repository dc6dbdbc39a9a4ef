use vstd::prelude::*;

verus! {

#[derive(Debug, Clone, Copy, PartialEq, Eq, Structural)]
pub enum SensorType {
    Deb,
    Rpm,
    WindowsExe,
}

/// A local sensor file read at startup. The bytes themselves are held
/// beside it by whoever serves them; matching needs only what is here.
#[derive(Debug)]
pub struct Sensor {
    pub filename: String,
    pub sha256: String,
    pub sensor_type: SensorType,
}

/// An entry of the list of available sensors, as the CrowdStrike API
/// describes it.
#[derive(Debug)]
pub struct SensorMeta {
    pub name: String,
    pub sha256: String,
    pub platform: String,
    pub os: String,
    pub file_type: String,
    pub file_size: u64,
    pub version: String,
    pub architectures: Vec<String>,
}

pub fn clone_strings(v: &Vec<String>) -> (res: Vec<String>)
    ensures
        res@ == v@,
{
    let mut res: Vec<String> = Vec::new();
    let mut i: usize = 0;
    while i < v.len()
        invariant
            0 <= i <= v.len(),
            res@ == v@.subrange(0, i as int),
        decreases v.len() - i,
    {
        res.push(v[i].clone());
        assert(res@ =~= v@.subrange(0, i + 1));
        i = i + 1;
    }
    assert(v@.subrange(0, v.len() as int) =~= v@);
    res
}

/// Two sensor-list entries describe the same installer.
pub open spec fn same_meta(a: SensorMeta, b: SensorMeta) -> bool {
    &&& a.name == b.name
    &&& a.sha256 == b.sha256
    &&& a.platform == b.platform
    &&& a.os == b.os
    &&& a.file_type == b.file_type
    &&& a.file_size == b.file_size
    &&& a.version == b.version
    &&& a.architectures@ == b.architectures@
}

impl Clone for SensorMeta {
    fn clone(&self) -> (res: Self)
        ensures
            same_meta(res, *self),
    {
        SensorMeta {
            name: self.name.clone(),
            sha256: self.sha256.clone(),
            platform: self.platform.clone(),
            os: self.os.clone(),
            file_type: self.file_type.clone(),
            file_size: self.file_size,
            version: self.version.clone(),
            architectures: clone_strings(&self.architectures),
        }
    }
}

/// Two sensor lists hold the same installers in the same order.
pub open spec fn same_metas(a: Seq<SensorMeta>, b: Seq<SensorMeta>) -> bool {
    a.len() == b.len() && forall|i: int| 0 <= i < a.len() ==> same_meta(#[trigger] a[i], b[i])
}

pub fn clone_metas(v: &Vec<SensorMeta>) -> (res: Vec<SensorMeta>)
    ensures
        same_metas(res@, v@),
{
    let mut res: Vec<SensorMeta> = Vec::new();
    let mut i: usize = 0;
    while i < v.len()
        invariant
            0 <= i <= v.len(),
            res.len() == i,
            forall|k: int| 0 <= k < i ==> same_meta(#[trigger] res@[k], v@[k]),
        decreases v.len() - i,
    {
        res.push(v[i].clone());
        i = i + 1;
    }
    res
}

impl Clone for Sensor {
    fn clone(&self) -> (res: Self)
        ensures
            res == *self,
    {
        Sensor {
            filename: self.filename.clone(),
            sha256: self.sha256.clone(),
            sensor_type: self.sensor_type,
        }
    }
}

} // verus!
