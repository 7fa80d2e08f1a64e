//! The firmware image under test and the address space it runs in.

use vstd::prelude::*;
use crate::backend::{Access, Region};

verus! {

/// Instruction budget of one run.
pub const MAX_INSTRUCTIONS: usize = 2000;

/// Wall-clock budget of one run, in microseconds: one second.
pub const SECOND_SCALE: u64 = 1_000_000;

/// Lowest address of the stack.
pub const STACK_BASE: u64 = 0x8010_0000;

/// Size of the stack in bytes.
pub const STACK_SIZE: usize = 0x1_0000;

/// Address of the stack pointer when a run starts.
pub const STACK_TOP: u64 = 0x8010_FFFC;

/// Scratch region of the next boot stage.
pub const BOOT_STAGE: u64 = 0x3200_0000;

/// Region that the target writes its verdict to.
pub const AUTH_BASE: u64 = 0x0AA0_1000;

/// Region of the serial output.
pub const SERIAL_BASE: u64 = 0x1100_0000;

/// Granularity of the memory map: every region is a whole number of pages.
pub const MINIMUM_MEMORY_SIZE: usize = 0x1000;

/// Highest address of the target's 32-bit address space.
pub const ADDRESS_MAX: u64 = 0xFFFF_FFFF;

/// Mathematical model of an [`Image`].
pub struct ImageView {
    pub load_address: u64,
    pub program: Seq<u8>,
    pub file_size: u64,
    pub memory_size: u64,
    pub flash_load_img: u64,
    pub serial_puts: u64,
    pub auth_success: u64,
}

/// Size of the code region for a program of `len` bytes: the least whole
/// number of pages that is larger than the program.
pub open spec fn spec_code_size(len: nat) -> nat {
    (len / 0x1000 + 1) * 0x1000
}

impl ImageView {
    /// Size of the code region.
    pub open spec fn code_size(self) -> nat {
        spec_code_size(self.program.len())
    }

    /// Address of the first instruction of the serial output routine: the
    /// low 32 bits of its symbol value, without the lowest bit.
    pub open spec fn puts_address(self) -> int {
        self.serial_puts % 0x1_0000_0000 - self.serial_puts % 2
    }

    /// Address at which a run of the whole program ends.
    pub open spec fn end_address(self) -> int {
        self.load_address + self.file_size
    }

    /// The code region.
    pub open spec fn code_region(self) -> Region {
        Region { base: self.load_address, size: self.code_size() as usize, access: Access::All }
    }

    /// The five regions of the address space, in the order in which they are
    /// mapped: boot-stage scratch, code, stack, auth trigger, serial output.
    pub open spec fn regions(self) -> Seq<Region> {
        seq![
            Region { base: BOOT_STAGE, size: MINIMUM_MEMORY_SIZE, access: Access::ReadWrite },
            self.code_region(),
            Region { base: STACK_BASE, size: STACK_SIZE, access: Access::ReadWrite },
            Region { base: AUTH_BASE, size: MINIMUM_MEMORY_SIZE, access: Access::WriteOnly },
            Region { base: SERIAL_BASE, size: MINIMUM_MEMORY_SIZE, access: Access::MmioWrite },
        ]
    }

    /// Whether the image can be set up: it starts on a page boundary, it
    /// lies with its code region inside the 32-bit address space and clear of
    /// the four fixed regions, and its serial output routine lies inside the
    /// code region.
    pub open spec fn valid(self) -> bool {
        &&& self.load_address % 0x1000 == 0
        &&& self.program.len() + 0x1000 <= ADDRESS_MAX
        &&& self.load_address + self.code_size() <= ADDRESS_MAX + 1
        &&& self.load_address + self.file_size <= ADDRESS_MAX
        &&& self.load_address + self.memory_size <= ADDRESS_MAX
        &&& self.flash_load_img < ADDRESS_MAX
        &&& self.serial_puts <= ADDRESS_MAX
        &&& self.load_address <= self.puts_address()
        &&& self.puts_address() + 2 <= self.load_address + self.code_size()
        &&& forall|i: int|
            0 <= i < 5 && i != 1 ==> (#[trigger] self.regions()[i]).disjoint(self.code_region())
    }
}

/// A firmware image as the loader hands it over.
#[derive(Debug)]
pub struct Image {
    /// Address at which the program is loaded and starts.
    pub load_address: u64,
    /// The program's bytes.
    pub program: Vec<u8>,
    /// Size of the program in the file.
    pub file_size: u64,
    /// Size of the program in memory.
    pub memory_size: u64,
    /// Symbol value of the flash-load routine.
    pub flash_load_img: u64,
    /// Symbol value of the serial output routine.
    pub serial_puts: u64,
    /// The value that the target writes to the auth-trigger region when its
    /// security check has passed; any other value written there means that
    /// the check has failed.
    pub auth_success: u64,
}

impl View for Image {
    type V = ImageView;

    open spec fn view(&self) -> ImageView {
        ImageView {
            load_address: self.load_address,
            program: self.program@,
            file_size: self.file_size,
            memory_size: self.memory_size,
            flash_load_img: self.flash_load_img,
            serial_puts: self.serial_puts,
            auth_success: self.auth_success,
        }
    }
}

/// The five regions are pairwise disjoint for every image that can be set
/// up.
pub proof fn lemma_regions_disjoint(image: ImageView)
    requires
        image.valid(),
    ensures
        image.regions().len() == 5,
        forall|i: int, j: int|
            0 <= i < 5 && 0 <= j < 5 && i != j ==> (#[trigger] image.regions()[i]).disjoint(
                #[trigger] image.regions()[j],
            ),
{
    let regions = image.regions();
    assert(regions[0].disjoint(image.code_region()));
    assert(regions[2].disjoint(image.code_region()));
    assert(regions[3].disjoint(image.code_region()));
    assert(regions[4].disjoint(image.code_region()));
    assert(regions[1] == image.code_region());
}

/// The code region is a whole number of pages and larger than the program by
/// at most one page.
pub proof fn lemma_code_size_bounds(len: nat)
    ensures
        spec_code_size(len) % 0x1000 == 0,
        len < spec_code_size(len) <= len + 0x1000,
{
    assert((len / 0x1000 + 1) * 0x1000 % 0x1000 == 0) by (nonlinear_arith);
    assert(len / 0x1000 * 0x1000 <= len < (len / 0x1000 + 1) * 0x1000) by (nonlinear_arith);
    assert((len / 0x1000 + 1) * 0x1000 == len / 0x1000 * 0x1000 + 0x1000) by (nonlinear_arith);
}

/// Size of the code region for a program of `len` bytes; nothing where it
/// would not fit into the 32-bit address space.
pub fn code_region_size(len: usize) -> (size: Option<usize>)
    ensures
        size is Some <==> len + 0x1000 <= ADDRESS_MAX,
        size matches Some(s) ==> s == spec_code_size(len as nat),
{
    if len as u64 > ADDRESS_MAX - 0x1000 {
        return None;
    }
    let padded: u64 = len as u64 + 0x1000;
    let size: u64 = padded & 0xffff_f000;
    proof {
        assert(padded <= 0xFFFF_FFFFu64 ==> padded & 0xffff_f000 == (padded / 0x1000) * 0x1000
            && padded & 0xffff_f000 <= padded) by (bit_vector);
        assert((len as int + 0x1000) / 0x1000 == len as int / 0x1000 + 1);
    }
    Some(size as usize)
}

/// Whether the two regions have no address in common.
pub fn regions_disjoint(first: &Region, second: &Region) -> (yes: bool)
    requires
        first.base + first.size <= u64::MAX,
        second.base + second.size <= u64::MAX,
    ensures
        yes == first.disjoint(*second),
{
    first.base + first.size as u64 <= second.base || second.base + second.size as u64
        <= first.base
}

impl Image {
    /// Address of the first instruction of the serial output routine.
    pub fn puts_address(&self) -> (address: u64)
        ensures
            address == self@.puts_address(),
    {
        let value: u64 = self.serial_puts;
        assert(value & 0xffff_fffe == value % 0x1_0000_0000 - value % 2) by (bit_vector);
        value & 0xffff_fffe
    }

    /// The five regions to map, in mapping order.
    pub fn regions(&self) -> (regions: Vec<Region>)
        requires
            self@.valid(),
        ensures
            regions@ == self@.regions(),
    {
        let code_size = match code_region_size(self.program.len()) {
            Some(size) => size,
            None => 0,
        };
        let mut regions: Vec<Region> = Vec::new();
        regions.push(
            Region { base: BOOT_STAGE, size: MINIMUM_MEMORY_SIZE, access: Access::ReadWrite },
        );
        regions.push(Region { base: self.load_address, size: code_size, access: Access::All });
        regions.push(Region { base: STACK_BASE, size: STACK_SIZE, access: Access::ReadWrite });
        regions.push(
            Region { base: AUTH_BASE, size: MINIMUM_MEMORY_SIZE, access: Access::WriteOnly },
        );
        regions.push(
            Region { base: SERIAL_BASE, size: MINIMUM_MEMORY_SIZE, access: Access::MmioWrite },
        );
        assert(regions@ =~= self@.regions());
        regions
    }

    /// Whether the image can be set up.
    pub fn is_valid(&self) -> (yes: bool)
        ensures
            yes == self@.valid(),
    {
        let code_size = match code_region_size(self.program.len()) {
            Some(size) => size,
            None => {
                return false;
            },
        };
        if self.load_address % 0x1000 != 0 || self.load_address > ADDRESS_MAX
            || code_size as u64 > ADDRESS_MAX - self.load_address + 1 {
            return false;
        }
        if self.file_size > ADDRESS_MAX - self.load_address || self.memory_size > ADDRESS_MAX
            - self.load_address {
            return false;
        }
        if self.flash_load_img >= ADDRESS_MAX || self.serial_puts > ADDRESS_MAX {
            return false;
        }
        let puts: u64 = self.puts_address();
        if puts < self.load_address || puts + 2 > self.load_address + code_size as u64 {
            return false;
        }
        let code = Region { base: self.load_address, size: code_size, access: Access::All };
        let boot = Region { base: BOOT_STAGE, size: MINIMUM_MEMORY_SIZE, access: Access::ReadWrite };
        let stack = Region { base: STACK_BASE, size: STACK_SIZE, access: Access::ReadWrite };
        let auth = Region { base: AUTH_BASE, size: MINIMUM_MEMORY_SIZE, access: Access::WriteOnly };
        let serial = Region {
            base: SERIAL_BASE,
            size: MINIMUM_MEMORY_SIZE,
            access: Access::MmioWrite,
        };
        let clear = regions_disjoint(&boot, &code) && regions_disjoint(&stack, &code)
            && regions_disjoint(&auth, &code) && regions_disjoint(&serial, &code);
        proof {
            let regions = self@.regions();
            assert(regions[0] == boot && regions[2] == stack && regions[3] == auth && regions[4]
                == serial);
            assert(self@.code_region() == code);
        }
        clear
    }

    /// A copy of the image.
    pub fn duplicate(&self) -> (copy: Image)
        ensures
            copy@ == self@,
    {
        Image {
            load_address: self.load_address,
            program: crate::fault::copy_bytes(&self.program),
            file_size: self.file_size,
            memory_size: self.memory_size,
            flash_load_img: self.flash_load_img,
            serial_puts: self.serial_puts,
            auth_success: self.auth_success,
        }
    }
}

} // verus!
