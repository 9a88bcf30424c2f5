//! The PowerShell scripts through which the agent talks to Windows printers,
//! and the quoting that keeps the values put into them inside their quotes.
use vstd::prelude::*;
use crate::text::{
    append_str, chars_of, decimal, digit_char, occurs_at, occurs_in, owned, push_char,
    u64_to_decimal,
};

verus! {

// ---------------------------------------------------------------------------
// Quoting
// ---------------------------------------------------------------------------

/// A character that PowerShell reads as a single quote: the ASCII `'` and
/// the typographic quotes U+2018, U+2019, U+201A and U+201B.
pub open spec fn is_ps_quote(c: char) -> bool {
    c == '\'' || c == '\u{2018}' || c == '\u{2019}' || c == '\u{201A}' || c == '\u{201B}'
}

/// What a character becomes inside a single-quoted PowerShell string: a
/// quote character is doubled, anything else stays.
pub open spec fn ps_quote_char(c: char) -> Seq<char> {
    if is_ps_quote(c) {
        seq![c, c]
    } else {
        seq![c]
    }
}

/// `s` made safe for a single-quoted PowerShell string: every quote
/// character doubled.
pub open spec fn ps_quote(s: Seq<char>) -> Seq<char>
    decreases s.len(),
{
    if s.len() == 0 {
        s
    } else {
        ps_quote(s.drop_last()) + ps_quote_char(s.last())
    }
}

/// What PowerShell reads from the body of a single-quoted string: two quote
/// characters in a row stand for the second of them.
pub open spec fn ps_unquote(t: Seq<char>) -> Seq<char>
    decreases t.len(),
{
    if t.len() == 0 {
        t
    } else if t.len() >= 2 && is_ps_quote(t[0]) && is_ps_quote(t[1]) {
        seq![t[1]] + ps_unquote(t.skip(2))
    } else {
        seq![t[0]] + ps_unquote(t.skip(1))
    }
}

/// Every quote character of `t` is one of a pair, so `t` cannot end the
/// quoted string it is placed in.
pub open spec fn quotes_paired(t: Seq<char>) -> bool
    decreases t.len(),
{
    if t.len() == 0 {
        true
    } else if is_ps_quote(t[0]) {
        t.len() >= 2 && is_ps_quote(t[1]) && quotes_paired(t.skip(2))
    } else {
        quotes_paired(t.skip(1))
    }
}

proof fn lemma_ps_quote_concat(a: Seq<char>, b: Seq<char>)
    ensures
        ps_quote(a + b) == ps_quote(a) + ps_quote(b),
    decreases b.len(),
{
    if b.len() == 0 {
        assert(a + b =~= a);
        assert(ps_quote(b) =~= Seq::<char>::empty());
        assert(ps_quote(a) + ps_quote(b) =~= ps_quote(a));
    } else {
        let b0 = b.drop_last();
        assert((a + b).drop_last() =~= a + b0);
        assert((a + b).last() == b.last());
        lemma_ps_quote_concat(a, b0);
        assert(ps_quote(a + b) == ps_quote(a + b0) + ps_quote_char(b.last()));
        assert(ps_quote(a) + ps_quote(b) =~= ps_quote(a) + ps_quote(b0) + ps_quote_char(b.last()));
    }
}

proof fn lemma_ps_quote_front(s: Seq<char>)
    requires
        s.len() > 0,
    ensures
        ps_quote(s) == ps_quote_char(s[0]) + ps_quote(s.drop_first()),
{
    assert(s =~= seq![s[0]] + s.drop_first());
    lemma_ps_quote_concat(seq![s[0]], s.drop_first());
    let one = seq![s[0]];
    assert(one.drop_last() =~= Seq::<char>::empty());
    assert(one.last() == s[0]);
    assert(ps_quote(one.drop_last()) =~= Seq::<char>::empty());
    assert(ps_quote(one) == ps_quote(one.drop_last()) + ps_quote_char(s[0]));
    assert(ps_quote(one) =~= ps_quote_char(s[0]));
}

/// Quoting loses nothing: PowerShell reads back exactly the quoted value.
pub proof fn law_quote_roundtrip(s: Seq<char>)
    ensures
        ps_unquote(ps_quote(s)) == s,
    decreases s.len(),
{
    if s.len() > 0 {
        lemma_ps_quote_front(s);
        let rest = s.drop_first();
        law_quote_roundtrip(rest);
        let q = ps_quote(s);
        if is_ps_quote(s[0]) {
            assert(q.skip(2) =~= ps_quote(rest));
        } else {
            assert(q.skip(1) =~= ps_quote(rest));
        }
        assert(seq![s[0]] + rest =~= s);
    }
}

/// A quoted value cannot close the string it is placed in.
pub proof fn law_quote_stays_inside(s: Seq<char>)
    ensures
        quotes_paired(ps_quote(s)),
    decreases s.len(),
{
    if s.len() > 0 {
        lemma_ps_quote_front(s);
        let rest = s.drop_first();
        law_quote_stays_inside(rest);
        let q = ps_quote(s);
        if is_ps_quote(s[0]) {
            assert(q.skip(2) =~= ps_quote(rest));
        } else {
            assert(q.skip(1) =~= ps_quote(rest));
        }
    }
}

/// `value` made safe for a single-quoted PowerShell string.
pub fn quote_ps(value: &str) -> (r: String)
    ensures
        r@ == ps_quote(value@),
{
    let v = chars_of(value);
    let mut r = String::new();
    let mut i: usize = 0;
    while i < v.len()
        invariant
            v@ == value@,
            i <= v.len(),
            r@ == ps_quote(value@.take(i as int)),
        decreases v.len() - i,
    {
        let c = v[i];
        push_char(&mut r, c);
        if c == '\'' || c == '\u{2018}' || c == '\u{2019}' || c == '\u{201A}' || c == '\u{201B}' {
            push_char(&mut r, c);
        }
        proof {
            let t = value@.take(i + 1);
            assert(t.drop_last() =~= value@.take(i as int));
            assert(t.last() == c);
            assert(r@ =~= ps_quote(value@.take(i as int)) + ps_quote_char(c));
        }
        i = i + 1;
    }
    assert(value@.take(v.len() as int) =~= value@);
    r
}

// ---------------------------------------------------------------------------
// Scripts
// ---------------------------------------------------------------------------

/// Lists the installed printers as JSON (one object, or an array of them).
pub const PRINTER_LIST_SCRIPT: &'static str = r##"@(Get-CimInstance Win32_Printer | Select-Object Name,Default,Network,Shared,WorkOffline) | ConvertTo-Json -Compress"##;

pub const TEXT_PRINT_0: &'static str = "Get-Content -LiteralPath '";

pub const TEXT_PRINT_1: &'static str = "' -Raw | Out-Printer -Name '";

pub const TEXT_PRINT_2: &'static str = "'";

/// The PowerShell command that prints the text file at `path` on `printer`.
pub open spec fn text_print_script(path: Seq<char>, printer: Seq<char>) -> Seq<char> {
    TEXT_PRINT_0@ + ps_quote(path) + TEXT_PRINT_1@ + ps_quote(printer) + TEXT_PRINT_2@
}

/// The PowerShell command that prints the text file at `path` on `printer`.
pub fn text_print_script_text(path: &str, printer: &str) -> (r: String)
    ensures
        r@ == text_print_script(path@, printer@),
{
    let path_q = quote_ps(path);
    let printer_q = quote_ps(printer);
    let mut r = owned(TEXT_PRINT_0);
    append_str(&mut r, path_q.as_str());
    append_str(&mut r, TEXT_PRINT_1);
    append_str(&mut r, printer_q.as_str());
    append_str(&mut r, TEXT_PRINT_2);
    r
}

pub const TEST_TICKET_0: &'static str = r##"
$ErrorActionPreference = 'Stop'
Add-Type -AssemblyName System.Drawing
$w = 576; $h = 320
$bmp = New-Object System.Drawing.Bitmap $w, $h
$g = [System.Drawing.Graphics]::FromImage($bmp)
$g.Clear([System.Drawing.Color]::White)
$g.TextRenderingHint = [System.Drawing.Text.TextRenderingHint]::SingleBitPerPixelGridFit
$font = New-Object System.Drawing.Font 'Consolas', 18, ([System.Drawing.FontStyle]::Bold)
$font2 = New-Object System.Drawing.Font 'Consolas', 14
$brush = [System.Drawing.Brushes]::Black
$y = 24
foreach ($t in @('"##;

pub const TEST_TICKET_1: &'static str = r##"','"##;

pub const TEST_TICKET_2: &'static str = r##"','------------------------','"##;

pub const TEST_TICKET_3: &'static str = r##"','"##;

pub const TEST_TICKET_4: &'static str = r##"','50/80 mm thermal')) {
  $g.DrawString($t, $(if ($y -lt 60) { $font } else { $font2 }), $brush, 16, $y)
  $y += 36
}
$bmp.Save('"##;

pub const TEST_TICKET_5: &'static str = r##"', [System.Drawing.Imaging.ImageFormat]::Png)
$g.Dispose(); $bmp.Dispose()
"##;


/// The PowerShell script that draws the test ticket (a 576-dot wide bitmap with
/// the four lines) and saves it as a PNG at `path`.
pub open spec fn test_ticket_script(line1: Seq<char>, line2: Seq<char>, line3: Seq<char>, line4: Seq<char>, path: Seq<char>) -> Seq<char> {
    TEST_TICKET_0@
        + ps_quote(line1)
        + TEST_TICKET_1@
        + ps_quote(line2)
        + TEST_TICKET_2@
        + ps_quote(line3)
        + TEST_TICKET_3@
        + ps_quote(line4)
        + TEST_TICKET_4@
        + ps_quote(path)
        + TEST_TICKET_5@
}

/// The PowerShell script that draws the test ticket (a 576-dot wide bitmap with
/// the four lines) and saves it as a PNG at `path`.
pub fn test_ticket_script_text(line1: &str, line2: &str, line3: &str, line4: &str, path: &str) -> (r: String)
    ensures
        r@ == test_ticket_script(line1@, line2@, line3@, line4@, path@),
{
    let line1_q = quote_ps(line1);
    let line2_q = quote_ps(line2);
    let line3_q = quote_ps(line3);
    let line4_q = quote_ps(line4);
    let path_q = quote_ps(path);
    let mut r = owned(TEST_TICKET_0);
    append_str(&mut r, line1_q.as_str());
    append_str(&mut r, TEST_TICKET_1);
    append_str(&mut r, line2_q.as_str());
    append_str(&mut r, TEST_TICKET_2);
    append_str(&mut r, line3_q.as_str());
    append_str(&mut r, TEST_TICKET_3);
    append_str(&mut r, line4_q.as_str());
    append_str(&mut r, TEST_TICKET_4);
    append_str(&mut r, path_q.as_str());
    append_str(&mut r, TEST_TICKET_5);
    r
}

pub const RAW_ESCPOS_0: &'static str = r##"
$ErrorActionPreference = 'Stop'
Add-Type -AssemblyName System.Drawing
$path = '"##;

pub const RAW_ESCPOS_1: &'static str = r##"'
$printer = '"##;

pub const RAW_ESCPOS_2: &'static str = r##"'
$copies = "##;

pub const RAW_ESCPOS_3: &'static str = r##"
$targetW = "##;

pub const RAW_ESCPOS_4: &'static str = r##"

function Get-RawHelper {
  if (-not ('RawPrinterHelper2' -as [type])) {
    Add-Type -TypeDefinition @"
using System;
using System.Runtime.InteropServices;
public class RawPrinterHelper2 {
  [StructLayout(LayoutKind.Sequential, CharSet=CharSet.Ansi)]
  public class DOCINFOA {
    [MarshalAs(UnmanagedType.LPStr)] public string pDocName;
    [MarshalAs(UnmanagedType.LPStr)] public string pOutputFile;
    [MarshalAs(UnmanagedType.LPStr)] public string pDataType;
  }
  [DllImport("winspool.Drv", EntryPoint="OpenPrinterA", SetLastError=true, CharSet=CharSet.Ansi, ExactSpelling=true, CallingConvention=CallingConvention.StdCall)]
  public static extern bool OpenPrinter([MarshalAs(UnmanagedType.LPStr)] string szPrinter, out IntPtr hPrinter, IntPtr pd);
  [DllImport("winspool.Drv", EntryPoint="ClosePrinter", SetLastError=true, ExactSpelling=true, CallingConvention=CallingConvention.StdCall)]
  public static extern bool ClosePrinter(IntPtr hPrinter);
  [DllImport("winspool.Drv", EntryPoint="StartDocPrinterA", SetLastError=true, CharSet=CharSet.Ansi, ExactSpelling=true, CallingConvention=CallingConvention.StdCall)]
  public static extern bool StartDocPrinter(IntPtr hPrinter, Int32 level, [In, MarshalAs(UnmanagedType.LPStruct)] DOCINFOA di);
  [DllImport("winspool.Drv", EntryPoint="EndDocPrinter", SetLastError=true, ExactSpelling=true, CallingConvention=CallingConvention.StdCall)]
  public static extern bool EndDocPrinter(IntPtr hPrinter);
  [DllImport("winspool.Drv", EntryPoint="StartPagePrinter", SetLastError=true, ExactSpelling=true, CallingConvention=CallingConvention.StdCall)]
  public static extern bool StartPagePrinter(IntPtr hPrinter);
  [DllImport("winspool.Drv", EntryPoint="EndPagePrinter", SetLastError=true, ExactSpelling=true, CallingConvention=CallingConvention.StdCall)]
  public static extern bool EndPagePrinter(IntPtr hPrinter);
  [DllImport("winspool.Drv", EntryPoint="WritePrinter", SetLastError=true, ExactSpelling=true, CallingConvention=CallingConvention.StdCall)]
  public static extern bool WritePrinter(IntPtr hPrinter, IntPtr pBytes, Int32 dwCount, out Int32 dwWritten);
  public static bool SendBytes(string printerName, byte[] bytes) {
    IntPtr hPrinter;
    if (!OpenPrinter(printerName, out hPrinter, IntPtr.Zero)) return false;
    var di = new DOCINFOA();
    di.pDocName = "RestaAPP RAW";
    di.pDataType = "RAW";
    if (!StartDocPrinter(hPrinter, 1, di)) { ClosePrinter(hPrinter); return false; }
    if (!StartPagePrinter(hPrinter)) { EndDocPrinter(hPrinter); ClosePrinter(hPrinter); return false; }
    IntPtr p = Marshal.AllocCoTaskMem(bytes.Length);
    Marshal.Copy(bytes, 0, p, bytes.Length);
    int written;
    bool ok = WritePrinter(hPrinter, p, bytes.Length, out written);
    Marshal.FreeCoTaskMem(p);
    EndPagePrinter(hPrinter);
    EndDocPrinter(hPrinter);
    ClosePrinter(hPrinter);
    return ok && written > 0;
  }
}
"@
  }
}

Get-RawHelper

$src = [System.Drawing.Image]::FromFile($path)
try {
  $srcW = $src.Width; $srcH = $src.Height
  if ($srcW -lt 1 -or $srcH -lt 1) { throw 'EMPTY_IMAGE' }
  $targetH = [Math]::Max(1, [int][Math]::Round($srcH * ($targetW / [double]$srcW)))
  if ($targetH -gt 2400) { $targetH = 2400 }

  # Exact thermal width, nearest-neighbor only (no soft blur)
  $bmp = New-Object System.Drawing.Bitmap ([int]$targetW), ([int]$targetH), ([System.Drawing.Imaging.PixelFormat]::Format24bppRgb)
  $g = [System.Drawing.Graphics]::FromImage($bmp)
  $g.Clear([System.Drawing.Color]::White)
  $g.InterpolationMode = [System.Drawing.Drawing2D.InterpolationMode]::NearestNeighbor
  $g.PixelOffsetMode = [System.Drawing.Drawing2D.PixelOffsetMode]::Half
  $g.SmoothingMode = [System.Drawing.Drawing2D.SmoothingMode]::None
  $g.CompositingMode = [System.Drawing.Drawing2D.CompositingMode]::SourceCopy
  $g.DrawImage($src, (New-Object System.Drawing.Rectangle 0,0,$targetW,$targetH), 0,0,$srcW,$srcH, [System.Drawing.GraphicsUnit]::Pixel)
  $g.Dispose()

  # Pack monochrome ESC/POS raster (GS v 0) via LockBits (fast + sharp threshold)
  $widthBytes = [int][Math]::Ceiling($targetW / 8.0)
  # ESC@ (2) + GS v 0 header (8) + raster + feed/cut (7)
  $dataSize = 10 + ($widthBytes * $targetH) + 7
  $bytes = New-Object byte[] $dataSize
  $i = 0
  # ESC @
  $bytes[$i++] = 0x1B; $bytes[$i++] = 0x40
  # GS v 0 m=0  (raster bit image)
  $bytes[$i++] = 0x1D; $bytes[$i++] = 0x76; $bytes[$i++] = 0x30; $bytes[$i++] = 0x00
  $bytes[$i++] = [byte]($widthBytes -band 0xFF)
  $bytes[$i++] = [byte](($widthBytes -shr 8) -band 0xFF)
  $bytes[$i++] = [byte]($targetH -band 0xFF)
  $bytes[$i++] = [byte](($targetH -shr 8) -band 0xFF)

  $rect = New-Object System.Drawing.Rectangle 0, 0, $targetW, $targetH
  $bmpData = $bmp.LockBits($rect, [System.Drawing.Imaging.ImageLockMode]::ReadOnly, [System.Drawing.Imaging.PixelFormat]::Format24bppRgb)
  try {
    $stride = $bmpData.Stride
    $scan0 = $bmpData.Scan0
    $row = New-Object byte[] $stride
    for ($y = 0; $y -lt $targetH; $y++) {
      $rowPtr = [IntPtr]::new($scan0.ToInt64() + [int64]$y * [int64]$stride)
      [System.Runtime.InteropServices.Marshal]::Copy($rowPtr, $row, 0, $stride)
      for ($xb = 0; $xb -lt $widthBytes; $xb++) {
        $b = 0
        for ($bit = 0; $bit -lt 8; $bit++) {
          $x = $xb * 8 + $bit
          if ($x -lt $targetW) {
            $p = $x * 3
            # BGR order in 24bpp
            $lum = (0.114 * $row[$p]) + (0.587 * $row[$p+1]) + (0.299 * $row[$p+2])
            if ($lum -lt 160) { $b = $b -bor (0x80 -shr $bit) }
          }
        }
        $bytes[$i++] = [byte]$b
      }
    }
  } finally {
    $bmp.UnlockBits($bmpData)
    $bmp.Dispose()
  }

  # Feed + partial cut
  $bytes[$i++] = 0x1B; $bytes[$i++] = 0x64; $bytes[$i++] = 0x04
  $bytes[$i++] = 0x1D; $bytes[$i++] = 0x56; $bytes[$i++] = 0x41; $bytes[$i++] = 0x03
  if ($i -lt $bytes.Length) {
    $trim = New-Object byte[] $i
    [Array]::Copy($bytes, $trim, $i)
    $bytes = $trim
  }

  for ($c = 1; $c -le $copies; $c++) {
    $ok = [RawPrinterHelper2]::SendBytes($printer, $bytes)
    if (-not $ok) { throw 'RAW_SEND_FAILED' }
  }
} finally {
  $src.Dispose()
}
"##;


/// The PowerShell script that rasterises the image at `path` to `target_dots`
/// dots wide, packs it as ESC/POS `GS v 0` with a feed and partial cut, and
/// sends it RAW to `printer` `copies` times.
pub open spec fn raw_escpos_script(path: Seq<char>, printer: Seq<char>, copies: u32, target_dots: u32) -> Seq<char> {
    RAW_ESCPOS_0@
        + ps_quote(path)
        + RAW_ESCPOS_1@
        + ps_quote(printer)
        + RAW_ESCPOS_2@
        + decimal(copies as nat)
        + RAW_ESCPOS_3@
        + decimal(target_dots as nat)
        + RAW_ESCPOS_4@
}

/// The PowerShell script that rasterises the image at `path` to `target_dots`
/// dots wide, packs it as ESC/POS `GS v 0` with a feed and partial cut, and
/// sends it RAW to `printer` `copies` times.
pub fn raw_escpos_script_text(path: &str, printer: &str, copies: u32, target_dots: u32) -> (r: String)
    ensures
        r@ == raw_escpos_script(path@, printer@, copies, target_dots),
{
    let path_q = quote_ps(path);
    let printer_q = quote_ps(printer);
    let copies_d = u64_to_decimal(copies as u64);
    let target_dots_d = u64_to_decimal(target_dots as u64);
    let mut r = owned(RAW_ESCPOS_0);
    append_str(&mut r, path_q.as_str());
    append_str(&mut r, RAW_ESCPOS_1);
    append_str(&mut r, printer_q.as_str());
    append_str(&mut r, RAW_ESCPOS_2);
    append_str(&mut r, copies_d.as_str());
    append_str(&mut r, RAW_ESCPOS_3);
    append_str(&mut r, target_dots_d.as_str());
    append_str(&mut r, RAW_ESCPOS_4);
    r
}

pub const GDI_0: &'static str = r##"
$ErrorActionPreference = 'Stop'
Add-Type -AssemblyName System.Drawing
$path = '"##;

pub const GDI_1: &'static str = r##"'
$printer = '"##;

pub const GDI_2: &'static str = r##"'
$copies = "##;

pub const GDI_3: &'static str = r##"
$configuredMm = [double]"##;

pub const GDI_4: &'static str = r##"
$img = [System.Drawing.Image]::FromFile($path)
try {
  $aspect = if ($img.Width -gt 0) { [double]$img.Height / [double]$img.Width } else { 1.5 }
  # Paper size ~ configured roll (+ small slack height)
  $estH = [Math]::Max(40.0, ($configuredMm - 2.0) * $aspect + 8.0)
  $widthHi = [Math]::Max(80, [int][Math]::Round(($configuredMm / 25.4) * 100.0))
  $heightHi = [Math]::Max(150, [int][Math]::Round(($estH / 25.4) * 100.0) + 40)
  if ($heightHi -gt 20000) { $heightHi = 20000 }

  for ($c = 1; $c -le $copies; $c++) {
    $pd = New-Object System.Drawing.Printing.PrintDocument
    $pd.PrinterSettings.PrinterName = $printer
    if (-not $pd.PrinterSettings.IsValid) { throw 'INVALID_PRINTER' }
    $pd.DocumentName = 'RestaAPP Print'
    $pd.OriginAtMargins = $false
    $pd.DefaultPageSettings.Margins = New-Object System.Drawing.Printing.Margins(0,0,0,0)
    $pd.DefaultPageSettings.Landscape = $false
    $custom = New-Object System.Drawing.Printing.PaperSize(('RestaAPP ' + [int]$configuredMm + 'mm'), $widthHi, $heightHi)
    $pd.DefaultPageSettings.PaperSize = $custom

    $imgRef = $img
    $cfgMm = $configuredMm
    $pd.add_PrintPage({
      param($sender, $e)
      $g = $e.Graphics
      $g.PageUnit = [System.Drawing.GraphicsUnit]::Millimeter
      $g.InterpolationMode = [System.Drawing.Drawing2D.InterpolationMode]::NearestNeighbor
      $g.PixelOffsetMode = [System.Drawing.Drawing2D.PixelOffsetMode]::Half
      $g.SmoothingMode = [System.Drawing.Drawing2D.SmoothingMode]::None
      $g.CompositingQuality = [System.Drawing.Drawing2D.CompositingQuality]::HighSpeed
      $g.CompositingMode = [System.Drawing.Drawing2D.CompositingMode]::SourceCopy

      # Hard margins from driver (true printable box) in mm
      $hardL = 0.0; $hardT = 0.0; $hardR = 0.0; $hardB = 0.0
      try {
        $hardL = $e.PageSettings.HardMarginX / 100.0 * 25.4
        $hardT = $e.PageSettings.HardMarginY / 100.0 * 25.4
      } catch {}
      $pageWmm = $e.PageBounds.Width   # already mm because PageUnit=Millimeter
      $pageHmm = $e.PageBounds.Height
      # Safety: if PageBounds still looks like 1/100" (huge numbers), convert
      if ($pageWmm -gt 500) {
        $pageWmm = $pageWmm / 100.0 * 25.4
        $pageHmm = $pageHmm / 100.0 * 25.4
      }

      $availW = [Math]::Max(30.0, $pageWmm - $hardL - 1.5)
      $availH = [Math]::Max(30.0, $pageHmm - $hardT - 1.5)
      # Never wider than configured roll (50 or 80) minus edge safety
      $maxW = [Math]::Min($availW, [Math]::Max(40.0, $cfgMm - 3.0))
      $maxH = $availH

      # Fit image entirely inside box (contain), keep aspect — no crop, no overflow
      $imgAspect = if ($imgRef.Width -gt 0) { [double]$imgRef.Height / [double]$imgRef.Width } else { 1.5 }
      $drawW = $maxW
      $drawH = $drawW * $imgAspect
      if ($drawH -gt $maxH -and $maxH -gt 10) {
        $drawH = $maxH
        $drawW = $drawH / $imgAspect
      }

      $x = $hardL + 0.5
      $y = $hardT + 0.5
      $dest = New-Object System.Drawing.RectangleF ([float]$x), ([float]$y), ([float]$drawW), ([float]$drawH)
      $src = New-Object System.Drawing.Rectangle 0, 0, $imgRef.Width, $imgRef.Height
      $g.DrawImage($imgRef, $dest, $src, [System.Drawing.GraphicsUnit]::Pixel)
      $e.HasMorePages = $false
    })
    $pd.Print()
    $pd.Dispose()
  }
} finally {
  $img.Dispose()
}
"##;


/// The PowerShell script that prints the image at `path` through the Windows
/// driver (GDI), fitted to a `width_mm` roll, `copies` times.
pub open spec fn gdi_script(path: Seq<char>, printer: Seq<char>, copies: u32, width_mm: u32) -> Seq<char> {
    GDI_0@
        + ps_quote(path)
        + GDI_1@
        + ps_quote(printer)
        + GDI_2@
        + decimal(copies as nat)
        + GDI_3@
        + decimal(width_mm as nat)
        + GDI_4@
}

/// The PowerShell script that prints the image at `path` through the Windows
/// driver (GDI), fitted to a `width_mm` roll, `copies` times.
pub fn gdi_script_text(path: &str, printer: &str, copies: u32, width_mm: u32) -> (r: String)
    ensures
        r@ == gdi_script(path@, printer@, copies, width_mm),
{
    let path_q = quote_ps(path);
    let printer_q = quote_ps(printer);
    let copies_d = u64_to_decimal(copies as u64);
    let width_mm_d = u64_to_decimal(width_mm as u64);
    let mut r = owned(GDI_0);
    append_str(&mut r, path_q.as_str());
    append_str(&mut r, GDI_1);
    append_str(&mut r, printer_q.as_str());
    append_str(&mut r, GDI_2);
    append_str(&mut r, copies_d.as_str());
    append_str(&mut r, GDI_3);
    append_str(&mut r, width_mm_d.as_str());
    append_str(&mut r, GDI_4);
    r
}

pub const PDF_0: &'static str = r##"
$ErrorActionPreference = 'Stop'
$path = '"##;

pub const PDF_1: &'static str = r##"'
$printer = '"##;

pub const PDF_2: &'static str = r##"'
$copies = "##;

pub const PDF_3: &'static str = r##"
for ($c = 1; $c -le $copies; $c++) {
  try {
    $p = Start-Process -FilePath $path -Verb PrintTo -ArgumentList ('"'+$printer+'"') -PassThru -WindowStyle Hidden
    if ($p) {
      $p.WaitForExit(20000) | Out-Null
      if (-not $p.HasExited) { $p.Kill() }
    }
  } catch {
    # Fallback mspaint-less: use default association
    Start-Process -FilePath $path -Verb Print -WindowStyle Hidden | Out-Null
    Start-Sleep -Seconds 8
  }
}
"##;


/// The PowerShell script that sends the PDF at `path` to `printer` through its
/// shell `PrintTo` verb, `copies` times.
pub open spec fn pdf_script(path: Seq<char>, printer: Seq<char>, copies: u32) -> Seq<char> {
    PDF_0@
        + ps_quote(path)
        + PDF_1@
        + ps_quote(printer)
        + PDF_2@
        + decimal(copies as nat)
        + PDF_3@
}

/// The PowerShell script that sends the PDF at `path` to `printer` through its
/// shell `PrintTo` verb, `copies` times.
pub fn pdf_script_text(path: &str, printer: &str, copies: u32) -> (r: String)
    ensures
        r@ == pdf_script(path@, printer@, copies),
{
    let path_q = quote_ps(path);
    let printer_q = quote_ps(printer);
    let copies_d = u64_to_decimal(copies as u64);
    let mut r = owned(PDF_0);
    append_str(&mut r, path_q.as_str());
    append_str(&mut r, PDF_1);
    append_str(&mut r, printer_q.as_str());
    append_str(&mut r, PDF_2);
    append_str(&mut r, copies_d.as_str());
    append_str(&mut r, PDF_3);
    r
}

/// The copies line of a PDF script: `$copies = `, the count, a line break.
proof fn lemma_pdf_copies_at(path: Seq<char>, printer: Seq<char>, c: u32)
    requires
        1 <= c <= 9,
    ensures
        occurs_in(pdf_script(path, printer, c), seq!['$', 'c', 'o', 'p', 'i', 'e', 's', ' ', '=', ' ', ((c + 48) as u8) as char, '\n']),
{
    reveal_strlit("'\n$copies = ");
    reveal_strlit("\nfor ($c = 1; $c -le $copies; $c++) {\n  try {\n    $p = Start-Process -FilePath $path -Verb PrintTo -ArgumentList ('\"'+$printer+'\"') -PassThru -WindowStyle Hidden\n    if ($p) {\n      $p.WaitForExit(20000) | Out-Null\n      if (-not $p.HasExited) { $p.Kill() }\n    }\n  } catch {\n    # Fallback mspaint-less: use default association\n    Start-Process -FilePath $path -Verb Print -WindowStyle Hidden | Out-Null\n    Start-Sleep -Seconds 8\n  }\n}\n");
    let s = pdf_script(path, printer, c);
    let pre = PDF_0@ + ps_quote(path) + PDF_1@ + ps_quote(printer);
    let line = seq!['$', 'c', 'o', 'p', 'i', 'e', 's', ' ', '=', ' ', ((c + 48) as u8) as char, '\n'];
    assert(PDF_2@ == "'\n$copies = "@);
    assert(PDF_2@.len() == 12);
    assert(decimal(c as nat) == seq![digit_char(c as nat)]);
    assert(PDF_3@[0] == '\n');
    assert(s == pre + PDF_2@ + decimal(c as nat) + PDF_3@);
    let at: int = pre.len() as int + 2;
    assert forall|i: int| 0 <= i < 12 implies s[at + i] == line[i] by {
        if i < 10 {
            assert(s[at + i] == PDF_2@[2 + i]);
        } else if i == 10 {
            assert(s[at + i] == decimal(c as nat)[0]);
        } else {
            assert(s[at + i] == PDF_3@[0]);
        }
    }
    assert(s.subrange(at, at + 12) =~= line);
    assert(occurs_at(s, line, at));
}

/// A PDF prints as many times as the plan asks: its script sets
/// `$copies` to that count, which the print loop runs up to.
pub proof fn law_pdf_copies(path: Seq<char>, printer: Seq<char>, c: u32)
    requires
        1 <= c <= 5,
    ensures
        c == 1 ==> occurs_in(pdf_script(path, printer, c), "$copies = 1\n"@),
        c == 2 ==> occurs_in(pdf_script(path, printer, c), "$copies = 2\n"@),
        c == 3 ==> occurs_in(pdf_script(path, printer, c), "$copies = 3\n"@),
        c == 4 ==> occurs_in(pdf_script(path, printer, c), "$copies = 4\n"@),
        c == 5 ==> occurs_in(pdf_script(path, printer, c), "$copies = 5\n"@),
{
    reveal_strlit("$copies = 1\n");
    reveal_strlit("$copies = 2\n");
    reveal_strlit("$copies = 3\n");
    reveal_strlit("$copies = 4\n");
    reveal_strlit("$copies = 5\n");
    lemma_pdf_copies_at(path, printer, c);
    let line = seq!['$', 'c', 'o', 'p', 'i', 'e', 's', ' ', '=', ' ', ((c + 48) as u8) as char, '\n'];
    if c == 1 {
        assert(line =~= "$copies = 1\n"@);
    } else if c == 2 {
        assert(line =~= "$copies = 2\n"@);
    } else if c == 3 {
        assert(line =~= "$copies = 3\n"@);
    } else if c == 4 {
        assert(line =~= "$copies = 4\n"@);
    } else {
        assert(line =~= "$copies = 5\n"@);
    }
}

pub const DRAWER_0: &'static str = r##"
$ErrorActionPreference = 'Stop'
$bytes = [System.IO.File]::ReadAllBytes('"##;

pub const DRAWER_1: &'static str = r##"')
$printer = '"##;

pub const DRAWER_2: &'static str = r##"'
# Send raw via Win32 WritePrinter when possible
Add-Type -TypeDefinition @"
using System;
using System.Runtime.InteropServices;
public class RawPrinterHelper {
  [StructLayout(LayoutKind.Sequential, CharSet=CharSet.Ansi)]
  public class DOCINFOA {
    [MarshalAs(UnmanagedType.LPStr)] public string pDocName;
    [MarshalAs(UnmanagedType.LPStr)] public string pOutputFile;
    [MarshalAs(UnmanagedType.LPStr)] public string pDataType;
  }
  [DllImport("winspool.Drv", EntryPoint="OpenPrinterA", SetLastError=true, CharSet=CharSet.Ansi, ExactSpelling=true, CallingConvention=CallingConvention.StdCall)]
  public static extern bool OpenPrinter([MarshalAs(UnmanagedType.LPStr)] string szPrinter, out IntPtr hPrinter, IntPtr pd);
  [DllImport("winspool.Drv", EntryPoint="ClosePrinter", SetLastError=true, ExactSpelling=true, CallingConvention=CallingConvention.StdCall)]
  public static extern bool ClosePrinter(IntPtr hPrinter);
  [DllImport("winspool.Drv", EntryPoint="StartDocPrinterA", SetLastError=true, CharSet=CharSet.Ansi, ExactSpelling=true, CallingConvention=CallingConvention.StdCall)]
  public static extern bool StartDocPrinter(IntPtr hPrinter, Int32 level, [In, MarshalAs(UnmanagedType.LPStruct)] DOCINFOA di);
  [DllImport("winspool.Drv", EntryPoint="EndDocPrinter", SetLastError=true, ExactSpelling=true, CallingConvention=CallingConvention.StdCall)]
  public static extern bool EndDocPrinter(IntPtr hPrinter);
  [DllImport("winspool.Drv", EntryPoint="StartPagePrinter", SetLastError=true, ExactSpelling=true, CallingConvention=CallingConvention.StdCall)]
  public static extern bool StartPagePrinter(IntPtr hPrinter);
  [DllImport("winspool.Drv", EntryPoint="EndPagePrinter", SetLastError=true, ExactSpelling=true, CallingConvention=CallingConvention.StdCall)]
  public static extern bool EndPagePrinter(IntPtr hPrinter);
  [DllImport("winspool.Drv", EntryPoint="WritePrinter", SetLastError=true, ExactSpelling=true, CallingConvention=CallingConvention.StdCall)]
  public static extern bool WritePrinter(IntPtr hPrinter, IntPtr pBytes, Int32 dwCount, out Int32 dwWritten);
  public static bool SendBytes(string printerName, byte[] bytes) {
    IntPtr hPrinter;
    if (!OpenPrinter(printerName.Normalize(), out hPrinter, IntPtr.Zero)) return false;
    var di = new DOCINFOA();
    di.pDocName = "RestaAPP Drawer";
    di.pDataType = "RAW";
    if (!StartDocPrinter(hPrinter, 1, di)) { ClosePrinter(hPrinter); return false; }
    StartPagePrinter(hPrinter);
    IntPtr p = Marshal.AllocCoTaskMem(bytes.Length);
    Marshal.Copy(bytes, 0, p, bytes.Length);
    int written;
    bool ok = WritePrinter(hPrinter, p, bytes.Length, out written);
    Marshal.FreeCoTaskMem(p);
    EndPagePrinter(hPrinter);
    EndDocPrinter(hPrinter);
    ClosePrinter(hPrinter);
    return ok;
  }
}
"@
[RawPrinterHelper]::SendBytes($printer, $bytes) | Out-Null
"##;


/// The PowerShell script that sends the bytes stored at `path` RAW to
/// `printer` (the drawer pulse).
pub open spec fn drawer_script(path: Seq<char>, printer: Seq<char>) -> Seq<char> {
    DRAWER_0@
        + ps_quote(path)
        + DRAWER_1@
        + ps_quote(printer)
        + DRAWER_2@
}

/// The PowerShell script that sends the bytes stored at `path` RAW to
/// `printer` (the drawer pulse).
pub fn drawer_script_text(path: &str, printer: &str) -> (r: String)
    ensures
        r@ == drawer_script(path@, printer@),
{
    let path_q = quote_ps(path);
    let printer_q = quote_ps(printer);
    let mut r = owned(DRAWER_0);
    append_str(&mut r, path_q.as_str());
    append_str(&mut r, DRAWER_1);
    append_str(&mut r, printer_q.as_str());
    append_str(&mut r, DRAWER_2);
    r
}

} // verus!
