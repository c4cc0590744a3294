//! The client of a Celeborn shuffle service: which calls it makes, with which
//! numbers, and what is made of their outcomes.

use std::collections::HashMap;
use vstd::prelude::*;

use crate::error::DaftError;
use crate::error::DaftErrorView;
use crate::text;

verus! {

broadcast use vstd::std_specs::hash::group_hash_axioms;

/// How to reach the service.
#[derive(Debug, PartialEq, Eq)]
pub struct CelebornClientConfig {
    /// Host name or address of the LifecycleManager.
    pub lm_host: String,
    /// Port of the LifecycleManager.
    pub lm_port: i32,
    pub app_id: String,
    /// Name of the compression codec, in any case.
    pub compression: String,
}

/// The settings that the native client is made with.
#[derive(Debug, PartialEq, Eq)]
pub struct CelebornConfig {
    pub app_id: String,
    /// 0 stands for the native default.
    pub push_buffer_max_size: i32,
    pub shuffle_compression_codec: String,
}

/// What the native client is asked to connect to.
#[derive(Debug, PartialEq, Eq)]
pub struct ConnectCall {
    pub config: CelebornConfig,
    pub lm_host: String,
    pub lm_port: i32,
}

/// How many map tasks and partitions a shuffle has.
#[derive(Debug, Clone, Copy, PartialEq, Eq, Structural)]
pub struct ShuffleCounts {
    pub num_mappers: i32,
    pub num_partitions: i32,
}

/// A call that stores data for a partition.
#[derive(Debug, PartialEq, Eq)]
pub struct PushDataCall {
    pub shuffle_id: i32,
    pub map_id: i32,
    pub attempt_id: i32,
    pub partition_id: i32,
    pub data: Vec<u8>,
    pub num_mappers: i32,
    pub num_partitions: i32,
}

/// The view of a [`PushDataCall`].
#[verifier::ext_equal]
pub struct PushDataCallView {
    pub shuffle_id: int,
    pub map_id: int,
    pub attempt_id: int,
    pub partition_id: int,
    pub data: Seq<u8>,
    pub num_mappers: int,
    pub num_partitions: int,
}

impl View for PushDataCall {
    type V = PushDataCallView;

    open spec fn view(&self) -> PushDataCallView {
        PushDataCallView {
            shuffle_id: self.shuffle_id as int,
            map_id: self.map_id as int,
            attempt_id: self.attempt_id as int,
            partition_id: self.partition_id as int,
            data: self.data@,
            num_mappers: self.num_mappers as int,
            num_partitions: self.num_partitions as int,
        }
    }
}

/// A call that says that a map task has pushed all its data.
#[derive(Debug, Clone, Copy, PartialEq, Eq, Structural)]
pub struct MapperEndCall {
    pub shuffle_id: i32,
    pub map_id: i32,
    pub attempt_id: i32,
    pub num_mappers: i32,
}

/// A call that reads all data of a partition.
#[derive(Debug, Clone, Copy, PartialEq, Eq, Structural)]
pub struct ReadPartitionCall {
    pub shuffle_id: i32,
    pub partition_id: i32,
    pub num_mappers: i32,
}

/// Which call on the native client failed.
#[derive(Debug, Clone, Copy, PartialEq, Eq, Structural)]
pub enum NativeCall {
    PushData,
    MapperEnd,
    UpdateReducerFileGroup,
    ReadPartition,
}

impl NativeCall {
    /// The name of the call.
    pub open spec fn spec_name(self) -> Seq<char> {
        match self {
            NativeCall::PushData => "push_data"@,
            NativeCall::MapperEnd => "mapper_end"@,
            NativeCall::UpdateReducerFileGroup => "update_reducer_file_group"@,
            NativeCall::ReadPartition => "read_partition"@,
        }
    }

    /// The name of the call.
    pub fn name(&self) -> (name: &'static str)
        ensures
            name@ == self.spec_name(),
    {
        match *self {
            NativeCall::PushData => "push_data",
            NativeCall::MapperEnd => "mapper_end",
            NativeCall::UpdateReducerFileGroup => "update_reducer_file_group",
            NativeCall::ReadPartition => "read_partition",
        }
    }

    /// The error of a call that failed for `reason`.
    pub open spec fn failure(self, reason: Seq<char>) -> DaftErrorView {
        DaftErrorView::External("Celeborn "@ + self.spec_name() + " failed: "@ + reason)
    }

    /// What a call comes to: its value, or the error that says why it failed.
    pub fn outcome<T>(&self, outcome: Result<T, String>) -> (result: Result<T, DaftError>)
        ensures
            outcome matches Ok(value) ==> result == Ok::<T, DaftError>(value),
            outcome matches Err(reason) ==> {
                &&& result matches Err(error)
                &&& error@ == self.failure(reason@)
            },
    {
        match outcome {
            Ok(value) => Ok(value),
            Err(reason) => Err(
                DaftError::External(
                    text::join4("Celeborn ", self.name(), " failed: ", reason.as_str()),
                ),
            ),
        }
    }

    /// The error of a call whose task panicked.
    pub fn task_panicked(&self, reason: &str) -> (error: DaftError)
        ensures
            error@ == DaftErrorView::External(
                "Celeborn "@ + self.spec_name() + " task panicked: "@ + reason@,
            ),
    {
        DaftError::External(text::join4("Celeborn ", self.name(), " task panicked: ", reason))
    }
}

/// The error of a call that found the lock of the native client poisoned.
pub fn lock_poisoned(reason: &str) -> (error: DaftError)
    ensures
        error@ == DaftErrorView::External("Celeborn client lock poisoned: "@ + reason@),
{
    DaftError::External(text::join2("Celeborn client lock poisoned: ", reason))
}

/// Whether the native client can take `value`.
pub open spec fn fits_ffi(value: u64) -> bool {
    value <= i32::MAX
}

/// The error of a number that the native client cannot take.
pub open spec fn overflow_error(value: u64, name: Seq<char>) -> DaftErrorView {
    DaftErrorView::External(
        name + " "@ + text::decimal(value as nat) + " overflows i32 (Celeborn FFI limit)"@,
    )
}

/// The number as the native client takes it, which is the same number, or an error
/// that names it where it is too large.
pub fn to_ffi_i32(value: u64, name: &str) -> (converted: Result<i32, DaftError>)
    ensures
        fits_ffi(value) ==> {
            &&& converted matches Ok(number)
            &&& number == value
        },
        !fits_ffi(value) ==> {
            &&& converted matches Err(error)
            &&& error@ == overflow_error(value, name@)
        },
{
    if value <= 0x7fff_ffff {
        Ok(value as i32)
    } else {
        let digits = text::decimal_text(value);
        Err(
            DaftError::External(
                text::join4(name, " ", digits.as_str(), " overflows i32 (Celeborn FFI limit)"),
            ),
        )
    }
}

/// The error of the first of `numbers`, each given with its name, that the native
/// client cannot take, if there is one.
pub open spec fn first_overflow(numbers: Seq<(u64, Seq<char>)>) -> Option<DaftErrorView>
    decreases numbers.len(),
{
    if numbers.len() == 0 {
        None
    } else if fits_ffi(numbers[0].0) {
        first_overflow(numbers.skip(1))
    } else {
        Some(overflow_error(numbers[0].0, numbers[0].1))
    }
}

/// The error of a shuffle that was not registered.
pub open spec fn unregistered_error(shuffle_id: u64) -> DaftErrorView {
    DaftErrorView::External(
        "Celeborn shuffle "@ + text::decimal(shuffle_id as nat) + " is not registered"@,
    )
}

impl CelebornConfig {
    /// The settings for an application and a codec.
    pub fn with_codec(app_id: &str, codec: String) -> (config: CelebornConfig)
        ensures
            config.app_id@ == app_id@,
            config.push_buffer_max_size == 0,
            config.shuffle_compression_codec@ == codec@,
    {
        CelebornConfig {
            app_id: app_id.to_owned(),
            push_buffer_max_size: 0,
            shuffle_compression_codec: codec,
        }
    }
}

impl CelebornClientConfig {
    /// What the native client is asked to connect to. The codec is written in upper
    /// case.
    pub fn connect_call(&self) -> (call: ConnectCall)
        ensures
            call.config.app_id@ == self.app_id@,
            call.config.push_buffer_max_size == 0,
            call.config.shuffle_compression_codec@ == text::uppercase(self.compression@),
            vstd::utf8::is_ascii_chars(self.compression@) ==> call.config.shuffle_compression_codec@
                == text::ascii_uppercase(self.compression@),
            call.lm_host@ == self.lm_host@,
            call.lm_port == self.lm_port,
    {
        let codec = text::uppercase_text(self.compression.as_str());
        ConnectCall {
            config: CelebornConfig::with_codec(self.app_id.as_str(), codec),
            lm_host: self.lm_host.clone(),
            lm_port: self.lm_port,
        }
    }

    /// The error of a connection that failed for `reason`.
    pub open spec fn connect_failure(self, reason: Seq<char>) -> DaftErrorView {
        DaftErrorView::External(
            "Failed to connect to Celeborn LifecycleManager at "@ + self.lm_host@ + ":"@
                + text::signed_decimal(self.lm_port as int) + ": "@ + reason,
        )
    }
}

/// What a client knows of the shuffles that were registered with it.
pub struct ShuffleCelebornClient<C> {
    client: C,
    shuffles: HashMap<i32, ShuffleCounts>,
}

/// What pushing data comes to, given the shuffles that are registered.
pub open spec fn push_data_call(
    shuffles: Map<i32, ShuffleCounts>,
    shuffle_id: u64,
    map_id: u32,
    attempt_id: u32,
    partition_id: u32,
    data: Seq<u8>,
) -> Result<PushDataCallView, DaftErrorView> {
    let overflow = first_overflow(
        seq![
            (shuffle_id, "shuffle_id"@),
            (map_id as u64, "map_id"@),
            (attempt_id as u64, "attempt_id"@),
            (partition_id as u64, "partition_id"@),
        ],
    );
    match overflow {
        Some(error) => Err(error),
        None => if shuffles.contains_key(shuffle_id as i32) {
            Ok(
                PushDataCallView {
                    shuffle_id: shuffle_id as int,
                    map_id: map_id as int,
                    attempt_id: attempt_id as int,
                    partition_id: partition_id as int,
                    data,
                    num_mappers: shuffles[shuffle_id as i32].num_mappers as int,
                    num_partitions: shuffles[shuffle_id as i32].num_partitions as int,
                },
            )
        } else {
            Err(unregistered_error(shuffle_id))
        },
    }
}

/// What ending a map task comes to, given the shuffles that are registered.
pub open spec fn mapper_end_call(
    shuffles: Map<i32, ShuffleCounts>,
    shuffle_id: u64,
    map_id: u32,
    attempt_id: u32,
) -> Result<MapperEndCall, DaftErrorView> {
    let overflow = first_overflow(
        seq![
            (shuffle_id, "shuffle_id"@),
            (map_id as u64, "map_id"@),
            (attempt_id as u64, "attempt_id"@),
        ],
    );
    match overflow {
        Some(error) => Err(error),
        None => if shuffles.contains_key(shuffle_id as i32) {
            Ok(
                MapperEndCall {
                    shuffle_id: shuffle_id as i32,
                    map_id: map_id as i32,
                    attempt_id: attempt_id as i32,
                    num_mappers: shuffles[shuffle_id as i32].num_mappers,
                },
            )
        } else {
            Err(unregistered_error(shuffle_id))
        },
    }
}

/// What reading a partition comes to, given the shuffles that are registered.
pub open spec fn read_partition_call(
    shuffles: Map<i32, ShuffleCounts>,
    shuffle_id: u64,
    partition_id: u32,
) -> Result<ReadPartitionCall, DaftErrorView> {
    let overflow = first_overflow(
        seq![(shuffle_id, "shuffle_id"@), (partition_id as u64, "partition_id"@)],
    );
    match overflow {
        Some(error) => Err(error),
        None => if shuffles.contains_key(shuffle_id as i32) {
            Ok(
                ReadPartitionCall {
                    shuffle_id: shuffle_id as i32,
                    partition_id: partition_id as i32,
                    num_mappers: shuffles[shuffle_id as i32].num_mappers,
                },
            )
        } else {
            Err(unregistered_error(shuffle_id))
        },
    }
}

/// What registering a shuffle comes to: the shuffles that are registered afterwards.
pub open spec fn registered(
    shuffles: Map<i32, ShuffleCounts>,
    shuffle_id: u64,
    num_mappers: u32,
    num_partitions: u32,
) -> Result<Map<i32, ShuffleCounts>, DaftErrorView> {
    let overflow = first_overflow(
        seq![
            (shuffle_id, "shuffle_id"@),
            (num_mappers as u64, "num_mappers"@),
            (num_partitions as u64, "num_partitions"@),
        ],
    );
    match overflow {
        Some(error) => Err(error),
        None => Ok(
            shuffles.insert(
                shuffle_id as i32,
                ShuffleCounts {
                    num_mappers: num_mappers as i32,
                    num_partitions: num_partitions as i32,
                },
            ),
        ),
    }
}

/// Whether `result` is `expected`, the error taken by its view.
pub open spec fn agrees<T, U>(
    result: Result<T, DaftError>,
    expected: Result<U, DaftErrorView>,
    value: spec_fn(T) -> U,
) -> bool {
    match expected {
        Ok(wanted) => result is Ok && value(result->Ok_0) == wanted,
        Err(error) => result is Err && result->Err_0@ == error,
    }
}

impl<C> ShuffleCelebornClient<C> {
    /// The shuffles that are registered.
    pub closed spec fn shuffles(self) -> Map<i32, ShuffleCounts> {
        self.shuffles@
    }

    /// The native client.
    pub closed spec fn spec_client(self) -> C {
        self.client
    }

    /// A client for the connection that was asked for by
    /// [`CelebornClientConfig::connect_call`], with no shuffle registered.
    pub fn connect(config: &CelebornClientConfig, connection: Result<C, String>) -> (result: Result<
        ShuffleCelebornClient<C>,
        DaftError,
    >)
        ensures
            connection matches Ok(native) ==> {
                &&& result matches Ok(client)
                &&& client.spec_client() == native
                &&& client.shuffles() == Map::<i32, ShuffleCounts>::empty()
            },
            connection matches Err(reason) ==> {
                &&& result matches Err(error)
                &&& error@ == config.connect_failure(reason@)
            },
    {
        match connection {
            Ok(client) => Ok(ShuffleCelebornClient { client, shuffles: HashMap::new() }),
            Err(reason) => {
                let port = text::signed_decimal_text(config.lm_port);
                let mut message = text::join4(
                    "Failed to connect to Celeborn LifecycleManager at ",
                    config.lm_host.as_str(),
                    ":",
                    port.as_str(),
                );
                message.append(": ");
                message.append(reason.as_str());
                Err(DaftError::External(message))
            },
        }
    }

    /// The native client.
    pub fn client(&self) -> (client: &C)
        ensures
            *client == self.spec_client(),
    {
        &self.client
    }

    /// Registers a shuffle with its number of map tasks and of partitions, in place
    /// of what it was registered with before.
    pub fn register_shuffle(
        &mut self,
        shuffle_id: u64,
        num_mappers: u32,
        num_partitions: u32,
    ) -> (result: Result<(), DaftError>)
        ensures
            final(self).spec_client() == old(self).spec_client(),
            match registered(old(self).shuffles(), shuffle_id, num_mappers, num_partitions) {
                Ok(shuffles) => result is Ok && final(self).shuffles() == shuffles,
                Err(failure) => {
                    &&& result matches Err(error)
                    &&& error@ == failure
                    &&& final(self).shuffles() == old(self).shuffles()
                },
            },
    {
        proof {
            reveal_with_fuel(first_overflow, 4);
        }
        let id: i32 = match to_ffi_i32(shuffle_id, "shuffle_id") {
            Ok(id) => id,
            Err(error) => {
                return Err(error);
            },
        };
        let mappers: i32 = match to_ffi_i32(num_mappers as u64, "num_mappers") {
            Ok(mappers) => mappers,
            Err(error) => {
                return Err(error);
            },
        };
        let partitions: i32 = match to_ffi_i32(num_partitions as u64, "num_partitions") {
            Ok(partitions) => partitions,
            Err(error) => {
                return Err(error);
            },
        };
        self.shuffles.insert(id, ShuffleCounts { num_mappers: mappers, num_partitions: partitions });
        Ok(())
    }

    /// The counts that a shuffle was registered with.
    fn counts(&self, shuffle_id: u64, id: i32) -> (result: Result<ShuffleCounts, DaftError>)
        ensures
            self.shuffles().contains_key(id) ==> result == Ok::<ShuffleCounts, DaftError>(
                self.shuffles()[id],
            ),
            !self.shuffles().contains_key(id) ==> {
                &&& result matches Err(error)
                &&& error@ == unregistered_error(shuffle_id)
            },
    {
        match self.shuffles.get(&id) {
            Some(counts) => Ok(*counts),
            None => {
                let digits = text::decimal_text(shuffle_id);
                Err(
                    DaftError::External(
                        text::join3("Celeborn shuffle ", digits.as_str(), " is not registered"),
                    ),
                )
            },
        }
    }

    /// The call that stores `data` for a partition.
    pub fn push_data(
        &self,
        shuffle_id: u64,
        map_id: u32,
        attempt_id: u32,
        partition_id: u32,
        data: &[u8],
    ) -> (result: Result<PushDataCall, DaftError>)
        ensures
            agrees(
                result,
                push_data_call(
                    self.shuffles(),
                    shuffle_id,
                    map_id,
                    attempt_id,
                    partition_id,
                    data@,
                ),
                |call: PushDataCall| call@,
            ),
    {
        proof {
            reveal_with_fuel(first_overflow, 5);
        }
        let id: i32 = match to_ffi_i32(shuffle_id, "shuffle_id") {
            Ok(id) => id,
            Err(error) => {
                return Err(error);
            },
        };
        let map: i32 = match to_ffi_i32(map_id as u64, "map_id") {
            Ok(map) => map,
            Err(error) => {
                return Err(error);
            },
        };
        let attempt: i32 = match to_ffi_i32(attempt_id as u64, "attempt_id") {
            Ok(attempt) => attempt,
            Err(error) => {
                return Err(error);
            },
        };
        let partition: i32 = match to_ffi_i32(partition_id as u64, "partition_id") {
            Ok(partition) => partition,
            Err(error) => {
                return Err(error);
            },
        };
        let counts = match self.counts(shuffle_id, id) {
            Ok(counts) => counts,
            Err(error) => {
                return Err(error);
            },
        };
        Ok(
            PushDataCall {
                shuffle_id: id,
                map_id: map,
                attempt_id: attempt,
                partition_id: partition,
                data: vstd::slice::slice_to_vec(data),
                num_mappers: counts.num_mappers,
                num_partitions: counts.num_partitions,
            },
        )
    }

    /// The call that says that a map task has pushed all its data.
    pub fn mapper_end(&self, shuffle_id: u64, map_id: u32, attempt_id: u32) -> (result: Result<
        MapperEndCall,
        DaftError,
    >)
        ensures
            agrees(
                result,
                mapper_end_call(self.shuffles(), shuffle_id, map_id, attempt_id),
                |call: MapperEndCall| call,
            ),
    {
        proof {
            reveal_with_fuel(first_overflow, 4);
        }
        let id: i32 = match to_ffi_i32(shuffle_id, "shuffle_id") {
            Ok(id) => id,
            Err(error) => {
                return Err(error);
            },
        };
        let map: i32 = match to_ffi_i32(map_id as u64, "map_id") {
            Ok(map) => map,
            Err(error) => {
                return Err(error);
            },
        };
        let attempt: i32 = match to_ffi_i32(attempt_id as u64, "attempt_id") {
            Ok(attempt) => attempt,
            Err(error) => {
                return Err(error);
            },
        };
        let counts = match self.counts(shuffle_id, id) {
            Ok(counts) => counts,
            Err(error) => {
                return Err(error);
            },
        };
        Ok(
            MapperEndCall {
                shuffle_id: id,
                map_id: map,
                attempt_id: attempt,
                num_mappers: counts.num_mappers,
            },
        )
    }

    /// The call that reads a partition. It is made once the file group of the shuffle
    /// has been updated: see [`ReadPartitionCall::after_update`].
    pub fn read_partition(&self, shuffle_id: u64, partition_id: u32) -> (result: Result<
        ReadPartitionCall,
        DaftError,
    >)
        ensures
            agrees(
                result,
                read_partition_call(self.shuffles(), shuffle_id, partition_id),
                |call: ReadPartitionCall| call,
            ),
    {
        proof {
            reveal_with_fuel(first_overflow, 3);
        }
        let id: i32 = match to_ffi_i32(shuffle_id, "shuffle_id") {
            Ok(id) => id,
            Err(error) => {
                return Err(error);
            },
        };
        let partition: i32 = match to_ffi_i32(partition_id as u64, "partition_id") {
            Ok(partition) => partition,
            Err(error) => {
                return Err(error);
            },
        };
        let counts = match self.counts(shuffle_id, id) {
            Ok(counts) => counts,
            Err(error) => {
                return Err(error);
            },
        };
        Ok(
            ReadPartitionCall {
                shuffle_id: id,
                partition_id: partition,
                num_mappers: counts.num_mappers,
            },
        )
    }

    /// Does nothing: the service frees the data of a shuffle by itself.
    pub fn unregister_shuffle(&self, _shuffle_id: u64) -> (result: Result<(), DaftError>)
        ensures
            result is Ok,
    {
        Ok(())
    }
}

impl ReadPartitionCall {
    /// The read, once the file group of its shuffle has been updated.
    pub fn after_update(self, update: Result<(), String>) -> (result: Result<
        ReadPartitionCall,
        DaftError,
    >)
        ensures
            update is Ok ==> result == Ok::<ReadPartitionCall, DaftError>(self),
            update matches Err(reason) ==> {
                &&& result matches Err(error)
                &&& error@ == NativeCall::UpdateReducerFileGroup.failure(reason@)
            },
    {
        match NativeCall::UpdateReducerFileGroup.outcome(update) {
            Ok(()) => Ok(self),
            Err(error) => Err(error),
        }
    }
}

/// The error of a build without the native client.
pub open spec fn backend_missing() -> DaftErrorView {
    DaftErrorView::InternalError(
        "Celeborn shuffle backend requires the `celeborn` feature to be enabled. Rebuild with `--features celeborn`."@,
    )
}

/// A client for the connection that was asked for, where the native client is built
/// in: `connection` is what connecting came to, or nothing where it is not.
pub fn connect_celeborn_client<C>(
    config: &CelebornClientConfig,
    connection: Option<Result<C, String>>,
) -> (result: Result<ShuffleCelebornClient<C>, DaftError>)
    ensures
        connection matches Some(Ok(native)) ==> {
            &&& result matches Ok(client)
            &&& client.spec_client() == native
            &&& client.shuffles() == Map::<i32, ShuffleCounts>::empty()
        },
        connection matches Some(Err(reason)) ==> {
            &&& result matches Err(error)
            &&& error@ == config.connect_failure(reason@)
        },
        connection is None ==> {
            &&& result matches Err(error)
            &&& error@ == backend_missing()
        },
{
    match connection {
        Some(connection) => ShuffleCelebornClient::connect(config, connection),
        None => Err(
            DaftError::InternalError(
                "Celeborn shuffle backend requires the `celeborn` feature to be enabled. Rebuild with `--features celeborn`.".to_owned(),
            ),
        ),
    }
}

/// No call changes a number on its way to the native client.
pub proof fn law_calls_carry_the_numbers_given(
    shuffles: Map<i32, ShuffleCounts>,
    shuffle_id: u64,
    map_id: u32,
    attempt_id: u32,
    partition_id: u32,
    data: Seq<u8>,
)
    ensures
        push_data_call(shuffles, shuffle_id, map_id, attempt_id, partition_id, data) matches Ok(
            push,
        ) ==> {
            &&& push.shuffle_id == shuffle_id
            &&& push.map_id == map_id
            &&& push.attempt_id == attempt_id
            &&& push.partition_id == partition_id
            &&& push.data == data
        },
        mapper_end_call(shuffles, shuffle_id, map_id, attempt_id) matches Ok(end) ==> {
            &&& end.shuffle_id == shuffle_id
            &&& end.map_id == map_id
            &&& end.attempt_id == attempt_id
        },
        read_partition_call(shuffles, shuffle_id, partition_id) matches Ok(read) ==> {
            &&& read.shuffle_id == shuffle_id
            &&& read.partition_id == partition_id
        },
{
    reveal_with_fuel(first_overflow, 5);
}

/// Once a shuffle is registered, its calls are made, with the counts that it was
/// registered with, unless one of their own numbers is too large.
pub proof fn law_registered_counts_are_sent(
    shuffles: Map<i32, ShuffleCounts>,
    shuffle_id: u64,
    num_mappers: u32,
    num_partitions: u32,
    map_id: u32,
    attempt_id: u32,
    partition_id: u32,
    data: Seq<u8>,
)
    requires
        registered(shuffles, shuffle_id, num_mappers, num_partitions) is Ok,
        fits_ffi(map_id as u64),
        fits_ffi(attempt_id as u64),
        fits_ffi(partition_id as u64),
    ensures
        ({
            let after = registered(shuffles, shuffle_id, num_mappers, num_partitions)->Ok_0;
            &&& push_data_call(after, shuffle_id, map_id, attempt_id, partition_id, data) matches Ok(
                push,
            )
            &&& push.num_mappers == num_mappers
            &&& push.num_partitions == num_partitions
            &&& mapper_end_call(after, shuffle_id, map_id, attempt_id) matches Ok(end)
            &&& end.num_mappers == num_mappers
            &&& read_partition_call(after, shuffle_id, partition_id) matches Ok(read)
            &&& read.num_mappers == num_mappers
        }),
{
    reveal_with_fuel(first_overflow, 5);
}

/// To register a shuffle changes nothing about the calls of another.
pub proof fn law_registration_leaves_other_shuffles_alone(
    shuffles: Map<i32, ShuffleCounts>,
    shuffle_id: u64,
    num_mappers: u32,
    num_partitions: u32,
    other: u64,
    map_id: u32,
    attempt_id: u32,
    partition_id: u32,
    data: Seq<u8>,
)
    requires
        registered(shuffles, shuffle_id, num_mappers, num_partitions) is Ok,
        other != shuffle_id,
    ensures
        ({
            let after = registered(shuffles, shuffle_id, num_mappers, num_partitions)->Ok_0;
            &&& push_data_call(after, other, map_id, attempt_id, partition_id, data)
                == push_data_call(shuffles, other, map_id, attempt_id, partition_id, data)
            &&& mapper_end_call(after, other, map_id, attempt_id) == mapper_end_call(
                shuffles,
                other,
                map_id,
                attempt_id,
            )
            &&& read_partition_call(after, other, partition_id) == read_partition_call(
                shuffles,
                other,
                partition_id,
            )
        }),
{
    reveal_with_fuel(first_overflow, 5);
}

/// Of two registrations of the same shuffle only the later one counts.
pub proof fn law_last_registration_counts(
    shuffles: Map<i32, ShuffleCounts>,
    shuffle_id: u64,
    num_mappers: u32,
    num_partitions: u32,
    later_mappers: u32,
    later_partitions: u32,
)
    requires
        registered(shuffles, shuffle_id, num_mappers, num_partitions) is Ok,
        registered(shuffles, shuffle_id, later_mappers, later_partitions) is Ok,
    ensures
        registered(
            registered(shuffles, shuffle_id, num_mappers, num_partitions)->Ok_0,
            shuffle_id,
            later_mappers,
            later_partitions,
        ) == registered(shuffles, shuffle_id, later_mappers, later_partitions),
{
    let once = registered(shuffles, shuffle_id, num_mappers, num_partitions)->Ok_0;
    assert(registered(once, shuffle_id, later_mappers, later_partitions)->Ok_0 =~= registered(
        shuffles,
        shuffle_id,
        later_mappers,
        later_partitions,
    )->Ok_0);
}

/// A number that fits into 31 bits is handed on as it is; any other is refused, with a
/// message that names it and tells its value.
pub proof fn law_numbers_are_kept_or_refused(
    value: u64,
    name: &str,
    converted: Result<i32, DaftError>,
)
    requires
        call_ensures(to_ffi_i32, (value, name), converted),
    ensures
        value <= 0x7fff_ffff ==> converted is Ok && converted->Ok_0 == value,
        value > 0x7fff_ffff ==> {
            &&& converted matches Err(DaftError::External(message))
            &&& message@ == name@ + " "@ + text::decimal(value as nat)
                + " overflows i32 (Celeborn FFI limit)"@
        },
{
}

/// Whether `error` is that of the number `value`, named `name`, which is too large.
pub open spec fn refuses(error: DaftError, value: u64, name: Seq<char>) -> bool {
    &&& error matches DaftError::External(message)
    &&& message@ == name + " "@ + text::decimal(value as nat)
        + " overflows i32 (Celeborn FFI limit)"@
}

/// Whether `error` is that of a shuffle that was not registered.
pub open spec fn misses(error: DaftError, shuffle_id: u64) -> bool {
    &&& error matches DaftError::External(message)
    &&& message@ == "Celeborn shuffle "@ + text::decimal(shuffle_id as nat)
        + " is not registered"@
}

/// A push of data is made with the numbers and the data that it is given and with the counts
/// that its shuffle is registered with. The first of its numbers that is too large is
/// refused, and so is a shuffle that is not registered.
pub proof fn law_push_carries_what_it_is_given<C>(
    client: ShuffleCelebornClient<C>,
    shuffle_id: u64,
    map_id: u32,
    attempt_id: u32,
    partition_id: u32,
    data: &[u8],
    result: Result<PushDataCall, DaftError>,
)
    requires
        call_ensures(
            ShuffleCelebornClient::<C>::push_data,
            (&client, shuffle_id, map_id, attempt_id, partition_id, data),
            result,
        ),
    ensures
        if shuffle_id > 0x7fff_ffff {
            result is Err && refuses(result->Err_0, shuffle_id, "shuffle_id"@)
        } else if map_id > 0x7fff_ffff {
            result is Err && refuses(result->Err_0, map_id as u64, "map_id"@)
        } else if attempt_id > 0x7fff_ffff {
            result is Err && refuses(result->Err_0, attempt_id as u64, "attempt_id"@)
        } else if partition_id > 0x7fff_ffff {
            result is Err && refuses(result->Err_0, partition_id as u64, "partition_id"@)
        } else if !client.shuffles().contains_key(shuffle_id as i32) {
            result is Err && misses(result->Err_0, shuffle_id)
        } else {
            let counts = client.shuffles()[shuffle_id as i32];
            &&& result is Ok
            &&& result->Ok_0.shuffle_id == shuffle_id
            &&& result->Ok_0.map_id == map_id
            &&& result->Ok_0.attempt_id == attempt_id
            &&& result->Ok_0.partition_id == partition_id
            &&& result->Ok_0.data@ == data@
            &&& result->Ok_0.num_mappers == counts.num_mappers
            &&& result->Ok_0.num_partitions == counts.num_partitions
        },
{
    reveal_with_fuel(first_overflow, 5);
}

/// The end of a map task and the read of a partition are told with the numbers that they
/// are given and the number of map tasks that the shuffle is registered with, or refused as
/// a push is.
pub proof fn law_ends_and_reads_carry_what_they_are_given<C>(
    client: ShuffleCelebornClient<C>,
    shuffle_id: u64,
    map_id: u32,
    attempt_id: u32,
    partition_id: u32,
    end: Result<MapperEndCall, DaftError>,
    read: Result<ReadPartitionCall, DaftError>,
)
    requires
        call_ensures(
            ShuffleCelebornClient::<C>::mapper_end,
            (&client, shuffle_id, map_id, attempt_id),
            end,
        ),
        call_ensures(
            ShuffleCelebornClient::<C>::read_partition,
            (&client, shuffle_id, partition_id),
            read,
        ),
    ensures
        if shuffle_id > 0x7fff_ffff {
            end is Err && refuses(end->Err_0, shuffle_id, "shuffle_id"@)
        } else if map_id > 0x7fff_ffff {
            end is Err && refuses(end->Err_0, map_id as u64, "map_id"@)
        } else if attempt_id > 0x7fff_ffff {
            end is Err && refuses(end->Err_0, attempt_id as u64, "attempt_id"@)
        } else if !client.shuffles().contains_key(shuffle_id as i32) {
            end is Err && misses(end->Err_0, shuffle_id)
        } else {
            &&& end is Ok
            &&& end->Ok_0.shuffle_id == shuffle_id
            &&& end->Ok_0.map_id == map_id
            &&& end->Ok_0.attempt_id == attempt_id
            &&& end->Ok_0.num_mappers == client.shuffles()[shuffle_id as i32].num_mappers
        },
        if shuffle_id > 0x7fff_ffff {
            read is Err && refuses(read->Err_0, shuffle_id, "shuffle_id"@)
        } else if partition_id > 0x7fff_ffff {
            read is Err && refuses(read->Err_0, partition_id as u64, "partition_id"@)
        } else if !client.shuffles().contains_key(shuffle_id as i32) {
            read is Err && misses(read->Err_0, shuffle_id)
        } else {
            &&& read is Ok
            &&& read->Ok_0.shuffle_id == shuffle_id
            &&& read->Ok_0.partition_id == partition_id
            &&& read->Ok_0.num_mappers == client.shuffles()[shuffle_id as i32].num_mappers
        },
{
    reveal_with_fuel(first_overflow, 5);
}

/// A registration records the two counts for its shuffle, and for no other; the first of
/// its numbers that is too large is refused, and then nothing is recorded. The native client
/// stays the same.
pub proof fn law_registration_records_its_counts<C>(
    client: &mut ShuffleCelebornClient<C>,
    shuffle_id: u64,
    num_mappers: u32,
    num_partitions: u32,
    result: Result<(), DaftError>,
    other: i32,
)
    requires
        call_ensures(
            ShuffleCelebornClient::<C>::register_shuffle,
            (client, shuffle_id, num_mappers, num_partitions),
            result,
        ),
    ensures
        final(client).spec_client() == old(client).spec_client(),
        if shuffle_id > 0x7fff_ffff {
            result is Err && refuses(result->Err_0, shuffle_id, "shuffle_id"@)
        } else if num_mappers > 0x7fff_ffff {
            result is Err && refuses(result->Err_0, num_mappers as u64, "num_mappers"@)
        } else if num_partitions > 0x7fff_ffff {
            result is Err && refuses(result->Err_0, num_partitions as u64, "num_partitions"@)
        } else {
            &&& result is Ok
            &&& final(client).shuffles().contains_key(shuffle_id as i32)
            &&& final(client).shuffles()[shuffle_id as i32].num_mappers == num_mappers
            &&& final(client).shuffles()[shuffle_id as i32].num_partitions == num_partitions
        },
        result is Err || other != shuffle_id ==> {
            &&& final(client).shuffles().contains_key(other) <==> old(client).shuffles().contains_key(other)
            &&& final(client).shuffles().contains_key(other) ==> final(client).shuffles()[other]
                == old(client).shuffles()[other]
        },
{
    reveal_with_fuel(first_overflow, 5);
}

/// The native client is asked to connect to the host and the port that are configured, for
/// the application that is configured, with the default buffer, and with the name of the
/// codec in upper case.
pub proof fn law_connection_is_the_one_configured(config: CelebornClientConfig, call: ConnectCall)
    requires
        call_ensures(CelebornClientConfig::connect_call, (&config,), call),
    ensures
        call.lm_host@ == config.lm_host@,
        call.lm_port == config.lm_port,
        call.config.app_id@ == config.app_id@,
        call.config.push_buffer_max_size == 0,
        call.config.shuffle_compression_codec@ == text::uppercase(config.compression@),
        vstd::utf8::is_ascii_chars(config.compression@) ==> {
            let codec = call.config.shuffle_compression_codec@;
            &&& codec.len() == config.compression@.len()
            &&& forall|i: int|
                0 <= i < codec.len() ==> {
                    let c = config.compression@[i];
                    if 'a' <= c <= 'z' {
                        #[trigger] codec[i] as int == c as int - 32
                    } else {
                        codec[i] == c
                    }
                }
        },
{
    if vstd::utf8::is_ascii_chars(config.compression@) {
        let codec = call.config.shuffle_compression_codec@;
        assert forall|i: int| 0 <= i < codec.len() implies {
            let c = config.compression@[i];
            if 'a' <= c <= 'z' {
                #[trigger] codec[i] as int == c as int - 32
            } else {
                codec[i] == c
            }
        } by {
            text::law_ascii_cases(config.compression@, i);
        }
    }
}

/// The settings for an application and a codec hold both, and the default buffer.
pub proof fn law_settings_hold_the_codec(app_id: &str, codec: String, config: CelebornConfig)
    requires
        call_ensures(CelebornConfig::with_codec, (app_id, codec), config),
    ensures
        config.app_id@ == app_id@,
        config.shuffle_compression_codec@ == codec@,
        config.push_buffer_max_size == 0,
{
}

/// A client has the connection that was made, and no shuffle; of a connection that failed
/// it tells where to and why, and of a build without the native client that it is missing.
pub proof fn law_client_has_the_connection_made<C>(
    config: CelebornClientConfig,
    connection: Option<Result<C, String>>,
    result: Result<ShuffleCelebornClient<C>, DaftError>,
    connected: Result<ShuffleCelebornClient<C>, DaftError>,
    other: i32,
)
    requires
        call_ensures(connect_celeborn_client::<C>, (&config, connection), result),
        connection matches Some(made) ==> call_ensures(
            ShuffleCelebornClient::<C>::connect,
            (&config, made),
            connected,
        ),
    ensures
        match connection {
            Some(Ok(native)) => {
                &&& result is Ok
                &&& result->Ok_0.spec_client() == native
                &&& !result->Ok_0.shuffles().contains_key(other)
                &&& connected is Ok
                &&& connected->Ok_0.spec_client() == native
                &&& !connected->Ok_0.shuffles().contains_key(other)
            },
            Some(Err(reason)) => {
                let told = "Failed to connect to Celeborn LifecycleManager at "@ + config.lm_host@
                    + ":"@ + text::signed_decimal(config.lm_port as int) + ": "@ + reason@;
                &&& result matches Err(DaftError::External(message))
                &&& message@ == told
                &&& connected matches Err(DaftError::External(again))
                &&& again@ == told
            },
            None => {
                &&& result matches Err(DaftError::InternalError(message))
                &&& message@
                    == "Celeborn shuffle backend requires the `celeborn` feature to be enabled. Rebuild with `--features celeborn`."@
            },
        },
{
}

/// A call on the native client comes to its value, or to an error that names the call and
/// tells why it failed; so does one whose task panicked, or whose lock is poisoned. A read
/// goes on as it was asked for once the file group is updated. To free a shuffle always
/// succeeds.
pub proof fn law_calls_come_to_their_outcomes<T, C>(
    call: NativeCall,
    outcome: Result<T, String>,
    result: Result<T, DaftError>,
    reason: &str,
    panicked: DaftError,
    poisoned: DaftError,
    read: ReadPartitionCall,
    update: Result<(), String>,
    after: Result<ReadPartitionCall, DaftError>,
    client: ShuffleCelebornClient<C>,
    shuffle_id: u64,
    freed: Result<(), DaftError>,
    shown: &'static str,
    native: &C,
)
    requires
        call_ensures(NativeCall::name, (&call,), shown),
        call_ensures(ShuffleCelebornClient::<C>::client, (&client,), native),
        call_ensures(NativeCall::outcome::<T>, (&call, outcome), result),
        call_ensures(NativeCall::task_panicked, (&call, reason), panicked),
        call_ensures(lock_poisoned, (reason,), poisoned),
        call_ensures(ReadPartitionCall::after_update, (read, update), after),
        call_ensures(
            ShuffleCelebornClient::<C>::unregister_shuffle,
            (&client, shuffle_id),
            freed,
        ),
    ensures
        ({
            let name = match call {
                NativeCall::PushData => "push_data"@,
                NativeCall::MapperEnd => "mapper_end"@,
                NativeCall::UpdateReducerFileGroup => "update_reducer_file_group"@,
                NativeCall::ReadPartition => "read_partition"@,
            };
            &&& shown@ == name
            &&& outcome matches Ok(value) ==> result == Ok::<T, DaftError>(value)
            &&& outcome matches Err(why) ==> {
                &&& result matches Err(DaftError::External(message))
                &&& message@ == "Celeborn "@ + name + " failed: "@ + why@
            }
            &&& panicked matches DaftError::External(message)
            &&& message@ == "Celeborn "@ + name + " task panicked: "@ + reason@
        }),
        poisoned matches DaftError::External(message) && message@
            == "Celeborn client lock poisoned: "@ + reason@,
        update is Ok ==> after == Ok::<ReadPartitionCall, DaftError>(read),
        update matches Err(why) ==> {
            &&& after matches Err(DaftError::External(message))
            &&& message@ == "Celeborn "@ + "update_reducer_file_group"@ + " failed: "@ + why@
        },
        freed is Ok,
        *native == client.spec_client(),
{
}

/// Data that is pushed after a registration goes out with the counts of that registration,
/// and so do the end of a map task and a read.
pub proof fn law_calls_after_a_registration_carry_its_counts<C>(
    client: &mut ShuffleCelebornClient<C>,
    shuffle_id: u64,
    num_mappers: u32,
    num_partitions: u32,
    registered: Result<(), DaftError>,
    map_id: u32,
    attempt_id: u32,
    partition_id: u32,
    data: &[u8],
    push: Result<PushDataCall, DaftError>,
    end: Result<MapperEndCall, DaftError>,
    read: Result<ReadPartitionCall, DaftError>,
)
    requires
        call_ensures(
            ShuffleCelebornClient::<C>::register_shuffle,
            (client, shuffle_id, num_mappers, num_partitions),
            registered,
        ),
        registered is Ok,
        map_id <= 0x7fff_ffff,
        attempt_id <= 0x7fff_ffff,
        partition_id <= 0x7fff_ffff,
        call_ensures(
            ShuffleCelebornClient::<C>::push_data,
            (&*final(client), shuffle_id, map_id, attempt_id, partition_id, data),
            push,
        ),
        call_ensures(
            ShuffleCelebornClient::<C>::mapper_end,
            (&*final(client), shuffle_id, map_id, attempt_id),
            end,
        ),
        call_ensures(
            ShuffleCelebornClient::<C>::read_partition,
            (&*final(client), shuffle_id, partition_id),
            read,
        ),
    ensures
        push is Ok && push->Ok_0.num_mappers == num_mappers && push->Ok_0.num_partitions
            == num_partitions && push->Ok_0.data@ == data@,
        end is Ok && end->Ok_0.num_mappers == num_mappers,
        read is Ok && read->Ok_0.num_mappers == num_mappers,
{
    reveal_with_fuel(first_overflow, 5);
}

} // verus!
