//! The shuffle client, against a cluster that is held in memory.

use std::collections::BTreeMap;

use daft_backends::celeborn::{
    connect_celeborn_client, lock_poisoned, to_ffi_i32, CelebornClientConfig, MapperEndCall,
    NativeCall, ShuffleCelebornClient,
};
use daft_backends::error::DaftError;

fn celeborn_test_config() -> CelebornClientConfig {
    CelebornClientConfig {
        lm_host: "30.150.24.146".to_string(),
        lm_port: 32393,
        app_id: "my-rust-app-001".to_string(),
        compression: "NONE".to_string(),
    }
}

/// The data that was pushed, by shuffle and partition, and the map tasks that ended.
#[derive(Default)]
struct Cluster {
    data: BTreeMap<(i32, i32), Vec<u8>>,
    ended: Vec<MapperEndCall>,
}

impl Cluster {
    fn push(
        &mut self,
        client: &ShuffleCelebornClient<()>,
        shuffle_id: u64,
        map_id: u32,
        partition_id: u32,
        data: &[u8],
    ) -> Result<(), DaftError> {
        let call = client.push_data(shuffle_id, map_id, 0, partition_id, data)?;
        assert!(call.map_id < call.num_mappers && call.partition_id < call.num_partitions);
        self.data
            .entry((call.shuffle_id, call.partition_id))
            .or_default()
            .extend_from_slice(&call.data);
        NativeCall::PushData.outcome(Ok(()))
    }

    fn end(&mut self, client: &ShuffleCelebornClient<()>, shuffle_id: u64, map_id: u32) -> Result<(), DaftError> {
        self.ended.push(client.mapper_end(shuffle_id, map_id, 0)?);
        NativeCall::MapperEnd.outcome(Ok(()))
    }

    fn read(&self, client: &ShuffleCelebornClient<()>, shuffle_id: u64, partition_id: u32) -> Result<Vec<u8>, DaftError> {
        let call = client.read_partition(shuffle_id, partition_id)?.after_update(Ok(()))?;
        assert_eq!(self.ended.len() as i32, call.num_mappers);
        let data = self.data.get(&(call.shuffle_id, call.partition_id)).cloned();
        NativeCall::ReadPartition.outcome(data.ok_or_else(|| "no data".to_string()))
    }
}

fn connected() -> ShuffleCelebornClient<()> {
    ShuffleCelebornClient::connect(&celeborn_test_config(), Ok(())).ok().unwrap()
}

fn message<T>(result: Result<T, DaftError>) -> String {
    match result {
        Err(DaftError::External(message)) => message,
        Err(DaftError::InternalError(message)) => panic!("unexpected error {message}"),
        Ok(_) => panic!("unexpected success"),
    }
}

#[test]
fn connect_to_real_celeborn() {
    let config = celeborn_test_config();
    let call = config.connect_call();
    assert_eq!(call.lm_host, "30.150.24.146");
    assert_eq!(call.lm_port, 32393);
    assert_eq!(call.config.app_id, "my-rust-app-001");
    assert_eq!(call.config.push_buffer_max_size, 0);
    assert_eq!(call.config.shuffle_compression_codec, "NONE");
    let client = ShuffleCelebornClient::connect(&config, Ok(17));
    assert_eq!(*client.ok().unwrap().client(), 17);
}

#[test]
fn push_read_raw_bytes_roundtrip() {
    let num_mappers = 2;
    let num_partitions = 3;
    let shuffle_id: u64 = 1001;

    let mut cluster = Cluster::default();
    let mut client = connected();
    client.register_shuffle(shuffle_id, num_mappers, num_partitions).unwrap();

    let payload_m0 = "hello from mapper 0".as_bytes();
    cluster.push(&client, shuffle_id, 0, 0, payload_m0).unwrap();
    let payload_m1 = "hello from mapper 1".as_bytes();
    cluster.push(&client, shuffle_id, 1, 0, payload_m1).unwrap();

    cluster.end(&client, shuffle_id, 0).unwrap();
    cluster.end(&client, shuffle_id, 1).unwrap();

    let all_bytes = cluster.read(&client, shuffle_id, 0).unwrap();
    assert!(
        all_bytes.len() >= payload_m0.len() + payload_m1.len(),
        "expected at least {} bytes, got {}",
        payload_m0.len() + payload_m1.len(),
        all_bytes.len()
    );
    let combined = String::from_utf8_lossy(&all_bytes);
    assert!(
        combined.contains("hello from mapper 0"),
        "missing mapper 0 data in: {combined}"
    );
    assert!(
        combined.contains("hello from mapper 1"),
        "missing mapper 1 data in: {combined}"
    );
    assert!(client.unregister_shuffle(shuffle_id).is_ok());
    assert_eq!(message(cluster.read(&client, shuffle_id, 1)), "Celeborn read_partition failed: no data");
}

#[test]
fn codecs_are_written_in_upper_case() {
    let mut config = celeborn_test_config();
    config.compression = "zStd".to_string();
    assert_eq!(config.connect_call().config.shuffle_compression_codec, "ZSTD");
}

#[test]
fn connections_that_fail() {
    let config = celeborn_test_config();
    let failed = || Err("refused".to_string());
    let expected = "Failed to connect to Celeborn LifecycleManager at 30.150.24.146:32393: refused";
    assert_eq!(message(ShuffleCelebornClient::<()>::connect(&config, failed())), expected);
    assert_eq!(message(connect_celeborn_client::<()>(&config, Some(failed()))), expected);
    let config = CelebornClientConfig { lm_port: -5, ..config };
    assert_eq!(
        message(ShuffleCelebornClient::<()>::connect(&config, failed())),
        "Failed to connect to Celeborn LifecycleManager at 30.150.24.146:-5: refused"
    );
}

#[test]
fn builds_without_the_native_client() {
    match connect_celeborn_client::<()>(&celeborn_test_config(), None) {
        Err(DaftError::InternalError(message)) => assert_eq!(
            message,
            "Celeborn shuffle backend requires the `celeborn` feature to be enabled. Rebuild with `--features celeborn`."
        ),
        _ => panic!("unexpected result"),
    }
    assert!(connect_celeborn_client(&celeborn_test_config(), Some(Ok(1))).is_ok());
}

#[test]
fn numbers_for_the_native_client() {
    assert_eq!(to_ffi_i32(0, "x"), Ok(0));
    assert_eq!(to_ffi_i32(2_147_483_647, "x"), Ok(2_147_483_647));
    assert_eq!(
        message(to_ffi_i32(2_147_483_648, "shuffle_id")),
        "shuffle_id 2147483648 overflows i32 (Celeborn FFI limit)"
    );
    assert_eq!(
        message(to_ffi_i32(18_446_744_073_709_551_615, "map_id")),
        "map_id 18446744073709551615 overflows i32 (Celeborn FFI limit)"
    );
}

#[test]
fn calls_carry_the_numbers_given() {
    let mut client = connected();
    client.register_shuffle(5, 10, 20).unwrap();
    let push = client.push_data(5, 1, 2, 3, &[4, 5]).unwrap();
    assert_eq!(
        (push.shuffle_id, push.map_id, push.attempt_id, push.partition_id, push.num_mappers, push.num_partitions),
        (5, 1, 2, 3, 10, 20)
    );
    assert_eq!(push.data, vec![4, 5]);
    let end = client.mapper_end(5, 1, 2).unwrap();
    assert_eq!((end.shuffle_id, end.map_id, end.attempt_id, end.num_mappers), (5, 1, 2, 10));
    let read = client.read_partition(5, 3).unwrap();
    assert_eq!((read.shuffle_id, read.partition_id, read.num_mappers), (5, 3, 10));
}

#[test]
fn registrations() {
    let mut client = connected();
    assert_eq!(message(client.read_partition(5, 0)), "Celeborn shuffle 5 is not registered");
    client.register_shuffle(5, 1, 1).unwrap();
    client.register_shuffle(6, 2, 2).unwrap();
    assert_eq!(client.read_partition(5, 0).unwrap().num_mappers, 1);
    client.register_shuffle(5, 3, 3).unwrap();
    assert_eq!(client.read_partition(5, 0).unwrap().num_mappers, 3);
    assert_eq!(client.read_partition(6, 0).unwrap().num_mappers, 2);
    client.unregister_shuffle(5).unwrap();
    assert_eq!(client.read_partition(5, 0).unwrap().num_mappers, 3);
}

#[test]
fn first_number_that_is_too_large() {
    let big: u32 = 4_294_967_295;
    let mut client = connected();
    assert_eq!(
        message(client.register_shuffle(1, big, big)),
        "num_mappers 4294967295 overflows i32 (Celeborn FFI limit)"
    );
    assert_eq!(
        message(client.register_shuffle(1, 1, big)),
        "num_partitions 4294967295 overflows i32 (Celeborn FFI limit)"
    );
    assert_eq!(
        message(client.register_shuffle(1 << 40, 1, 1)),
        "shuffle_id 1099511627776 overflows i32 (Celeborn FFI limit)"
    );
    assert_eq!(message(client.mapper_end(1, 0, 0)), "Celeborn shuffle 1 is not registered");
    client.register_shuffle(1, 1, 1).unwrap();
    assert_eq!(
        message(client.push_data(1, 0, big, big, &[])),
        "attempt_id 4294967295 overflows i32 (Celeborn FFI limit)"
    );
    assert_eq!(
        message(client.push_data(1, 0, 0, big, &[])),
        "partition_id 4294967295 overflows i32 (Celeborn FFI limit)"
    );
    assert_eq!(
        message(client.mapper_end(1, big, 0)),
        "map_id 4294967295 overflows i32 (Celeborn FFI limit)"
    );
}

#[test]
fn calls_that_fail() {
    let failed = || Err::<(), String>("why".to_string());
    assert_eq!(message(NativeCall::PushData.outcome(failed())), "Celeborn push_data failed: why");
    assert_eq!(message(NativeCall::MapperEnd.outcome(failed())), "Celeborn mapper_end failed: why");
    assert_eq!(message(NativeCall::ReadPartition.outcome(failed())), "Celeborn read_partition failed: why");
    let mut client = connected();
    client.register_shuffle(1, 1, 1).unwrap();
    let read = client.read_partition(1, 0).unwrap();
    assert_eq!(
        message(read.after_update(failed())),
        "Celeborn update_reducer_file_group failed: why"
    );
    assert_eq!(
        NativeCall::ReadPartition.task_panicked("why"),
        DaftError::External("Celeborn read_partition task panicked: why".to_string())
    );
    assert_eq!(
        lock_poisoned("why"),
        DaftError::External("Celeborn client lock poisoned: why".to_string())
    );
}
