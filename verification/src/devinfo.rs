//! The device-information surface: the plain data the simple "get info"
//! calls return (serial number, software version, memory, licenses, storage,
//! configuration tables), and the camera records the registry and the UI
//! exchange. These calls are stateless request/response pairs; the transport
//! performs them and hands the decoded values around as the types below.

use vstd::prelude::*;

use crate::rpc::RequestBuilder;

verus! {

/// A camera's identity as stored: address and credentials.
#[derive(Clone, Debug)]
pub struct ICamera {
    pub id: i64,
    pub ip: String,
    pub username: String,
    pub password: String,
}

/// A camera as listed to the UI: no credentials, and the bookkeeping times
/// in milliseconds.
#[derive(Clone, Debug)]
pub struct Camera {
    pub id: i64,
    pub ip: String,
    pub username: String,
    pub refreshed_at: i64,
    pub created_at: i64,
}

/// A request to register a camera.
#[derive(Clone, Debug)]
pub struct CreateCamera {
    pub ip: String,
    pub username: String,
    pub password: String,
}

/// A request to edit a camera; absent fields keep their value.
#[derive(Clone, Debug)]
pub struct UpdateCamera {
    pub id: i64,
    pub ip: Option<String>,
    pub username: Option<String>,
    pub password: Option<String>,
}

/// The same shapes under the names the HTTP layer uses.
#[derive(Clone, Debug)]
pub struct CreateCameraRequest {
    pub ip: String,
    pub username: String,
    pub password: String,
}

#[derive(Clone, Debug)]
pub struct UpdateCameraRequest {
    pub id: i64,
    pub ip: Option<String>,
    pub username: Option<String>,
    pub password: Option<String>,
}

/// The vendor-specific device details.
#[derive(Clone, Debug)]
pub struct CameraDetail {
    pub sn: String,
    pub device_class: String,
    pub device_type: String,
    pub hardware_version: String,
    pub market_area: String,
    pub process_info: String,
    pub vendor: String,
}

/// The device's software version report.
#[derive(Clone, Debug)]
pub struct CameraSoftware {
    pub build: String,
    pub build_date: String,
    pub security_base_line_version: String,
    pub version: String,
    pub web_version: String,
}

/// One license entry of a device.
#[derive(Clone, Debug)]
pub struct CameraLicense {
    pub abroad_info: String,
    pub all_type: bool,
    pub digit_channel: u32,
    pub effective_days: u32,
    pub effective_time: u32,
    pub license_id: u32,
    pub product_type: String,
    pub status: u32,
    pub username: String,
}

/// An event name discovered on some camera's files.
#[derive(Clone, Debug)]
pub struct IpcEvent {
    pub name: String,
}

/// What `magicBox.getMemoryInfo` reports, in bytes.
#[derive(Clone, Copy, Debug, PartialEq, Eq, Structural)]
pub struct GetMemoryInfo {
    pub free: i64,
    pub total: i64,
}

/// What `magicBox.getSoftwareVersion` reports.
#[derive(Clone, Debug)]
pub struct GetSoftwareVersion {
    pub build: String,
    pub build_date: String,
    pub security_base_line_version: String,
    pub version: String,
    pub web_version: String,
}

/// What `global.getCurrentTime` reports: the device's own clock as text.
#[derive(Clone, Debug)]
pub struct GetCurrentTime {
    pub time: String,
}

/// One license record as `License.getLicenseInfo` reports it.
#[derive(Clone, Debug)]
pub struct InfoInfo {
    pub abroad_info: String,
    pub all_type: bool,
    pub digit_channel: u32,
    pub effective_days: u32,
    pub effective_time: u32,
    pub license_id: u32,
    pub product_type: String,
    pub status: u32,
    pub username: String,
}

/// The envelope each license record arrives in.
#[derive(Clone, Debug)]
pub struct Info {
    pub info: InfoInfo,
}

/// The same envelope under the name the license module's callers use.
#[derive(Clone, Debug)]
pub struct InfoContainer {
    pub info: InfoInfo,
}

/// One storage device of a camera.
#[derive(Clone, Debug)]
pub struct Storage {
    pub name: String,
    pub state: String,
    pub detail: Vec<StorageDetail>,
}

/// One partition of a storage device.
#[derive(Clone, Debug)]
pub struct StorageDetail {
    pub path: String,
    pub kind: String,
    pub total_bytes: i64,
    pub used_bytes: i64,
    pub is_error: bool,
}

/// Builds one of the stateless "get info" requests: the method name is the
/// whole request.
pub fn info_request(rpc: RequestBuilder, method: &str) -> (r: RequestBuilder)
    ensures
        r.req.method@ == method@,
        r.req.id == rpc.req.id,
        r.req.session == rpc.req.session,
        r.req.params == rpc.req.params,
        r.req.object == rpc.req.object,
        r.url == rpc.url,
        r.require_session == rpc.require_session,
{
    rpc.method(method)
}

/// Request: the device's serial number.
pub fn get_serial_no(rpc: RequestBuilder) -> (r: RequestBuilder)
    ensures
        r.req.method@ == "magicBox.getSerialNo"@,
        r.req.session == rpc.req.session,
        r.url == rpc.url,
{
    info_request(rpc, "magicBox.getSerialNo")
}

/// Request: the device's class.
pub fn get_device_class(rpc: RequestBuilder) -> (r: RequestBuilder)
    ensures
        r.req.method@ == "magicBox.getDeviceClass"@,
        r.req.session == rpc.req.session,
        r.url == rpc.url,
{
    info_request(rpc, "magicBox.getDeviceClass")
}

/// Request: the device's type.
pub fn get_device_type(rpc: RequestBuilder) -> (r: RequestBuilder)
    ensures
        r.req.method@ == "magicBox.getDeviceType"@,
        r.req.session == rpc.req.session,
        r.url == rpc.url,
{
    info_request(rpc, "magicBox.getDeviceType")
}

/// Request: the hardware version.
pub fn get_hardware_version(rpc: RequestBuilder) -> (r: RequestBuilder)
    ensures
        r.req.method@ == "magicBox.getHardwareVersion"@,
        r.req.session == rpc.req.session,
        r.url == rpc.url,
{
    info_request(rpc, "magicBox.getHardwareVersion")
}

/// Request: the market area.
pub fn get_market_area(rpc: RequestBuilder) -> (r: RequestBuilder)
    ensures
        r.req.method@ == "magicBox.getMarketArea"@,
        r.req.session == rpc.req.session,
        r.url == rpc.url,
{
    info_request(rpc, "magicBox.getMarketArea")
}

/// Request: the process information.
pub fn get_process_info(rpc: RequestBuilder) -> (r: RequestBuilder)
    ensures
        r.req.method@ == "magicBox.getProcessInfo"@,
        r.req.session == rpc.req.session,
        r.url == rpc.url,
{
    info_request(rpc, "magicBox.getProcessInfo")
}

/// Request: the vendor.
pub fn get_vendor(rpc: RequestBuilder) -> (r: RequestBuilder)
    ensures
        r.req.method@ == "magicBox.getVendor"@,
        r.req.session == rpc.req.session,
        r.url == rpc.url,
{
    info_request(rpc, "magicBox.getVendor")
}

/// Request: the software version report.
pub fn get_software_version(rpc: RequestBuilder) -> (r: RequestBuilder)
    ensures
        r.req.method@ == "magicBox.getSoftwareVersion"@,
        r.req.session == rpc.req.session,
        r.url == rpc.url,
{
    info_request(rpc, "magicBox.getSoftwareVersion")
}

/// Request: the memory report.
pub fn get_memory_info(rpc: RequestBuilder) -> (r: RequestBuilder)
    ensures
        r.req.method@ == "magicBox.getMemoryInfo"@,
        r.req.session == rpc.req.session,
        r.url == rpc.url,
{
    info_request(rpc, "magicBox.getMemoryInfo")
}

/// Request: the device's own clock.
pub fn get_current_time(rpc: RequestBuilder) -> (r: RequestBuilder)
    ensures
        r.req.method@ == "global.getCurrentTime"@,
        r.req.session == rpc.req.session,
        r.url == rpc.url,
{
    info_request(rpc, "global.getCurrentTime")
}

/// Request: the processor load.
pub fn get_cpu_usage(rpc: RequestBuilder) -> (r: RequestBuilder)
    ensures
        r.req.method@ == "magicBox.getCPUUsage"@,
        r.req.session == rpc.req.session,
        r.url == rpc.url,
{
    info_request(rpc, "magicBox.getCPUUsage")
}

/// Request: allocate the storage enumerator; its result number is the
/// handle the follow-up call addresses.
pub fn storage_factory_instance(rpc: RequestBuilder) -> (r: RequestBuilder)
    ensures
        r.req.method@ == "storage.factory.instance"@,
        r.req.session == rpc.req.session,
        r.url == rpc.url,
{
    info_request(rpc, "storage.factory.instance")
}

/// Request: every storage device, through the enumerator handle.
pub fn get_device_all_info(rpc: RequestBuilder, object: i64) -> (r: RequestBuilder)
    ensures
        r.req.method@ == "storage.getDeviceAllInfo"@,
        r.req.object == Some(object),
        r.req.session == rpc.req.session,
        r.url == rpc.url,
{
    rpc.method("storage.getDeviceAllInfo").object(object)
}

/// Request: the license list.
pub fn get_license_info(rpc: RequestBuilder) -> (r: RequestBuilder)
    ensures
        r.req.method@ == "License.getLicenseInfo"@,
        r.req.session == rpc.req.session,
        r.url == rpc.url,
{
    info_request(rpc, "License.getLicenseInfo")
}

/// Softens a structured device error on an optional info call into an empty
/// answer: a device that lacks the call simply reports nothing. Every other
/// outcome passes through.
pub fn maybe_text(r: Result<String, crate::rpc::Error>) -> (out: Result<String, crate::rpc::Error>)
    ensures
        r matches Ok(s) ==> (out matches Ok(s2) && s2 == s),
        r matches Err(e) ==> (if e matches crate::rpc::Error::Response(_) {
            out matches Ok(s) && s@ == Seq::<char>::empty()
        } else {
            out matches Err(e2) && e2 == e
        }),
{
    match r {
        Ok(s) => Ok(s),
        Err(e) => {
            let structured = matches!(&e, crate::rpc::Error::Response(_));
            if structured {
                Ok(String::new())
            } else {
                Err(e)
            }
        },
    }
}

/// Whether a channel number is the default and may be left off the wire.
pub fn is_zero(num: &i32) -> (r: bool)
    ensures
        r == (*num == 0),
{
    *num == 0
}

/// A `configManager.getConfig` request: the table's name and a channel.
#[derive(Clone, Debug)]
pub struct GetConfigRequest {
    pub name: String,
    pub channel: i32,
}

impl GetConfigRequest {
    pub fn new(name: String, channel: i32) -> (r: Self)
        ensures
            r.name == name,
            r.channel == channel,
    {
        Self { name, channel }
    }

    /// The request envelope of a configuration read.
    pub fn get(self, rpc: RequestBuilder) -> (r: RequestBuilder)
        ensures
            r.req.method@ == "configManager.getConfig"@,
            r.req.id == rpc.req.id,
            r.req.session == rpc.req.session,
            r.url == rpc.url,
            r.require_session == rpc.require_session,
    {
        rpc.method("configManager.getConfig")
    }
}

/// The `table` a configuration read answers with, when the device has one.
#[derive(Clone, Debug)]
pub struct GetConfigResponse<T> {
    pub table: Option<T>,
}

/// The row a storage update did not find.
#[derive(Clone, Copy, Debug, PartialEq, Eq, Structural)]
pub struct NotFound {}

impl NotFound {
    /// Whether a write touched anything: zero rows affected means the
    /// target row does not exist.
    pub fn check_query(rows_affected: u64) -> (r: Result<(), NotFound>)
        ensures
            r is Ok <==> rows_affected != 0,
    {
        if rows_affected == 0 {
            Err(NotFound {})
        } else {
            Ok(())
        }
    }
}

} // verus!
